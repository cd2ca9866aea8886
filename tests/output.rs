use mocha_compositor::output::{first_plane, select_output, ConnectorInfo, ModeInfo, OutputChoice, SetupFailure};

fn mode(width: u16, height: u16, preferred: bool) -> ModeInfo {
    ModeInfo { width, height, preferred }
}

#[test]
fn picks_first_connected_output_and_its_first_preferred_mode() {
    let connectors = vec![
        ConnectorInfo { id: 10, connected: false, modes: vec![mode(800, 600, true)] },
        ConnectorInfo {
            id: 11,
            connected: true,
            modes: vec![mode(1024, 768, false), mode(2560, 1440, true), mode(1920, 1080, true)],
        },
        ConnectorInfo { id: 12, connected: true, modes: vec![mode(640, 480, true)] },
    ];
    assert_eq!(select_output(&connectors), Ok(OutputChoice { connector: 11, width: 2560, height: 1440 }));
}

#[test]
fn no_connected_output_fails() {
    assert_eq!(select_output(&vec![]), Err(SetupFailure::NoConnectedOutput));
    let connectors = vec![ConnectorInfo { id: 1, connected: false, modes: vec![mode(1, 1, true)] }];
    assert_eq!(select_output(&connectors), Err(SetupFailure::NoConnectedOutput));
}

#[test]
fn no_preferred_mode_fails() {
    let connectors = vec![
        ConnectorInfo { id: 1, connected: true, modes: vec![mode(1920, 1080, false)] },
        ConnectorInfo { id: 2, connected: true, modes: vec![mode(1920, 1080, true)] },
    ];
    assert_eq!(select_output(&connectors), Err(SetupFailure::NoPreferredMode));
}

#[test]
fn plane_choice() {
    assert_eq!(first_plane(&vec![31, 32]), Ok(31));
    assert_eq!(first_plane(&vec![]), Err(SetupFailure::NoPlane));
}
