//! Choice of the display output at startup: the first connected output, its
//! first preferred mode, and the first primary plane of its CRTC.

use vstd::prelude::*;

verus! {

/// A display mode, as the device scan reports it.
#[derive(Clone, Copy, Debug, PartialEq, Eq, Structural)]
pub struct ModeInfo {
    pub width: u16,
    pub height: u16,
    pub preferred: bool,
}

/// A video output, as the device scan reports it.
#[derive(Debug)]
pub struct ConnectorInfo {
    pub id: u32,
    pub connected: bool,
    pub modes: Vec<ModeInfo>,
}

/// Why startup cannot drive a display.
#[derive(Clone, Copy, Debug, PartialEq, Eq, Structural)]
pub enum SetupFailure {
    /// No output is connected.
    NoConnectedOutput,
    /// The chosen output has no preferred mode.
    NoPreferredMode,
    /// The output's CRTC has no primary plane.
    NoPlane,
}

/// The output and mode to drive.
#[derive(Clone, Copy, Debug, PartialEq, Eq, Structural)]
pub struct OutputChoice {
    pub connector: u32,
    pub width: u32,
    pub height: u32,
}

/// The least index of a connected output.
pub open spec fn first_connected(cs: Seq<ConnectorInfo>) -> Option<int> {
    if exists|i: int| 0 <= i < cs.len() && #[trigger] cs[i].connected {
        Some(choose|i: int| 0 <= i < cs.len() && #[trigger] cs[i].connected
            && forall|k: int| 0 <= k < i ==> !#[trigger] cs[k].connected)
    } else {
        None
    }
}

/// The least index of a preferred mode.
pub open spec fn first_preferred(ms: Seq<ModeInfo>) -> Option<int> {
    if exists|j: int| 0 <= j < ms.len() && #[trigger] ms[j].preferred {
        Some(choose|j: int| 0 <= j < ms.len() && #[trigger] ms[j].preferred
            && forall|k: int| 0 <= k < j ==> !#[trigger] ms[k].preferred)
    } else {
        None
    }
}

proof fn lemma_first_connected(cs: Seq<ConnectorInfo>, i: int)
    requires
        0 <= i < cs.len(),
        cs[i].connected,
        forall|k: int| 0 <= k < i ==> !#[trigger] cs[k].connected,
    ensures
        first_connected(cs) == Some(i),
{
    let c = choose|c: int| 0 <= c < cs.len() && #[trigger] cs[c].connected
        && forall|k: int| 0 <= k < c ==> !#[trigger] cs[k].connected;
    if c < i {
        assert(!cs[c].connected);
    } else if c > i {
        assert(!cs[i].connected);
    }
}

proof fn lemma_first_preferred(ms: Seq<ModeInfo>, j: int)
    requires
        0 <= j < ms.len(),
        ms[j].preferred,
        forall|k: int| 0 <= k < j ==> !#[trigger] ms[k].preferred,
    ensures
        first_preferred(ms) == Some(j),
{
    let c = choose|c: int| 0 <= c < ms.len() && #[trigger] ms[c].preferred
        && forall|k: int| 0 <= k < c ==> !#[trigger] ms[k].preferred;
    if c < j {
        assert(!ms[c].preferred);
    } else if c > j {
        assert(!ms[j].preferred);
    }
}

fn find_preferred(modes: &Vec<ModeInfo>) -> (r: Option<usize>)
    ensures
        match r {
            Some(j) => j < modes@.len() && first_preferred(modes@) == Some(j as int),
            None => first_preferred(modes@) is None,
        },
{
    let mut j: usize = 0;
    while j < modes.len()
        invariant
            j <= modes@.len(),
            forall|k: int| 0 <= k < j ==> !#[trigger] modes@[k].preferred,
        decreases modes@.len() - j,
    {
        if modes[j].preferred {
            proof {
                lemma_first_preferred(modes@, j as int);
            }
            return Some(j);
        }
        j = j + 1;
    }
    None
}

/// Picks the first connected output and its first preferred mode.
pub fn select_output(connectors: &Vec<ConnectorInfo>) -> (r: Result<OutputChoice, SetupFailure>)
    ensures
        first_connected(connectors@) is None ==> r == Err::<OutputChoice, SetupFailure>(SetupFailure::NoConnectedOutput),
        forall|i: int|
            first_connected(connectors@) == Some(i) ==> (first_preferred(#[trigger] connectors@[i].modes@) is None
                ==> r == Err::<OutputChoice, SetupFailure>(SetupFailure::NoPreferredMode)),
        forall|i: int, j: int|
            #![trigger connectors@[i].modes@[j]]
            first_connected(connectors@) == Some(i) && first_preferred(connectors@[i].modes@) == Some(j)
                ==> r == Ok::<OutputChoice, SetupFailure>(
                OutputChoice {
                    connector: connectors@[i].id,
                    width: connectors@[i].modes@[j].width as u32,
                    height: connectors@[i].modes@[j].height as u32,
                },
            ),
{
    let mut i: usize = 0;
    while i < connectors.len()
        invariant
            i <= connectors@.len(),
            forall|k: int| 0 <= k < i ==> !#[trigger] connectors@[k].connected,
        decreases connectors@.len() - i,
    {
        let c = &connectors[i];
        if c.connected {
            proof {
                lemma_first_connected(connectors@, i as int);
            }
            return match find_preferred(&c.modes) {
                Some(j) => Ok(
                    OutputChoice { connector: c.id, width: c.modes[j].width as u32, height: c.modes[j].height as u32 },
                ),
                None => Err(SetupFailure::NoPreferredMode),
            };
        }
        i = i + 1;
    }
    Err(SetupFailure::NoConnectedOutput)
}

/// Picks the first primary plane of the output's CRTC.
pub fn first_plane(primary: &Vec<u32>) -> (r: Result<u32, SetupFailure>)
    ensures
        r == (if primary@.len() == 0 { Err(SetupFailure::NoPlane) } else { Ok(primary@[0]) }),
{
    if primary.len() == 0 {
        Err(SetupFailure::NoPlane)
    } else {
        Ok(primary[0])
    }
}

} // verus!
