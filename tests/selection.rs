use mpd_client::client::CommandError;
use mpd_utils::selection::{
    connected_hosts, pick_current, position_of, resolve_selection, select_best,
    PlayState,
};
use mpd_utils::Error;

fn choose_host(
    connected: &Vec<bool>,
    replies: Vec<Result<PlayState, CommandError>>,
) -> Result<usize, Error> {
    let hosts = connected_hosts(connected);
    assert_eq!(hosts.len(), replies.len());
    resolve_selection(pick_current(&hosts, replies))
}

fn ok_all(states: &[PlayState]) -> Vec<Result<PlayState, CommandError>> {
    states.iter().map(|s| Ok(*s)).collect()
}

#[test]
fn playing_host_wins_over_stopped_and_paused() {
    let states = vec![PlayState::Stopped, PlayState::Playing, PlayState::Paused];
    assert_eq!(select_best(&states), Some(1));
    let connected = vec![true, true, true];
    let r = choose_host(&connected, ok_all(&states));
    assert!(matches!(r, Ok(1)));
}

#[test]
fn paused_host_wins_over_stopped() {
    let states = vec![PlayState::Stopped, PlayState::Paused];
    assert_eq!(select_best(&states), Some(1));
}

#[test]
fn first_stopped_host_wins_among_stopped() {
    let states = vec![PlayState::Stopped, PlayState::Stopped];
    assert_eq!(select_best(&states), Some(0));
}

#[test]
fn first_playing_host_wins_among_playing() {
    let states = vec![PlayState::Paused, PlayState::Playing, PlayState::Playing];
    assert_eq!(select_best(&states), Some(1));
}

#[test]
fn empty_states_select_nothing() {
    assert_eq!(select_best(&Vec::new()), None);
}

#[test]
fn position_of_finds_first() {
    let states = vec![PlayState::Paused, PlayState::Stopped, PlayState::Stopped];
    assert_eq!(position_of(&states, PlayState::Stopped), Some(1));
    assert_eq!(position_of(&states, PlayState::Playing), None);
}

#[test]
fn connected_hosts_keep_registry_order() {
    assert_eq!(connected_hosts(&vec![false, true, false, true]), vec![1, 3]);
    assert_eq!(connected_hosts(&vec![false, false]), Vec::<usize>::new());
}

#[test]
fn selection_maps_back_to_registry_position() {
    let connected = vec![false, true, false, true, true];
    let states = vec![PlayState::Stopped, PlayState::Paused, PlayState::Stopped];
    assert!(matches!(choose_host(&connected, ok_all(&states)), Ok(3)));
}

#[test]
fn no_connected_host_gives_no_host_error() {
    let connected = vec![false, false, false];
    let r = choose_host(&connected, Vec::new());
    assert!(matches!(r, Err(Error::NoHostConnectedError)));
}

#[test]
fn empty_registry_gives_no_host_error() {
    let r = choose_host(&Vec::new(), Vec::new());
    assert!(matches!(r, Err(Error::NoHostConnectedError)));
}

#[test]
fn failed_query_fails_whole_selection() {
    let hosts = vec![0, 1];
    let replies = vec![Ok(PlayState::Playing), Err(CommandError::ConnectionClosed)];
    let r = pick_current(&hosts, replies);
    assert!(matches!(r, Err(CommandError::ConnectionClosed)));
    let connected = vec![true, true];
    let replies = vec![Err(CommandError::ConnectionClosed), Ok(PlayState::Playing)];
    let r = choose_host(&connected, replies);
    assert!(matches!(r, Err(Error::CommandError(CommandError::ConnectionClosed))));
}

#[test]
fn resolve_selection_maps_each_case() {
    assert!(matches!(resolve_selection(Ok(Some(2))), Ok(2)));
    assert!(matches!(resolve_selection(Ok(None)), Err(Error::NoHostConnectedError)));
    assert!(matches!(
        resolve_selection(Err(CommandError::ConnectionClosed)),
        Err(Error::CommandError(CommandError::ConnectionClosed))
    ));
}
