use music_bot::track_manager::{Action, Event, Request, TrackManager};
use music_bot::youtube::Error;

fn claim(m: &mut TrackManager, origin_id: usize, id: &str) -> String {
    told(&m.request_handler(Request::Claim { origin_id, id: id.to_owned() }))
}

fn unclaim(m: &mut TrackManager, id: &str) -> String {
    let request = Request::Unclaim { id: id.to_owned() };
    assert!(m.can_handle(&request));
    told(&m.request_handler(request))
}

fn finish(m: &mut TrackManager, id: &str) -> String {
    assert!(m.knows(id));
    told(&m.download_finished(id.to_owned(), format!("{id}.mp3")))
}

fn told(actions: &Vec<Action>) -> String {
    let words: Vec<String> = actions
        .iter()
        .map(|a| match a {
            Action::Download { origin_id, id } => format!("download {id} for {origin_id}"),
            Action::RemoveFile { path } => format!("remove {path}"),
            Action::Send(Event::Acquired { id }) => format!("acquired {id}"),
            Action::Send(Event::Removed { id, e: None }) => format!("removed {id}"),
            Action::Send(Event::Removed { id, e: Some((origin_id, e)) }) => {
                format!("removed {id} for {origin_id}: {}", e.message())
            }
        })
        .collect();
    words.join(", ")
}

#[test]
fn a_claim_starts_a_download() {
    let mut m = TrackManager::new(1);
    assert_eq!(claim(&mut m, 5, "a"), "download a for 5");
    assert_eq!(finish(&mut m, "a"), "acquired a");
}

#[test]
fn a_second_claim_waits_for_the_first() {
    let mut m = TrackManager::new(1);
    claim(&mut m, 5, "a");
    assert_eq!(claim(&mut m, 6, "a"), "");
    finish(&mut m, "a");
    assert_eq!(claim(&mut m, 7, "a"), "acquired a");
}

#[test]
fn downloads_wait_for_a_slot_in_order() {
    let mut m = TrackManager::new(1);
    assert_eq!(claim(&mut m, 1, "a"), "download a for 1");
    assert_eq!(claim(&mut m, 2, "b"), "download b for 2");
    assert_eq!(claim(&mut m, 3, "c"), "");
    assert_eq!(claim(&mut m, 4, "d"), "");
    assert_eq!(finish(&mut m, "a"), "acquired a");
    assert_eq!(unclaim(&mut m, "a"), "remove a.mp3, download c for 3, removed a");
    finish(&mut m, "b");
    assert_eq!(unclaim(&mut m, "b"), "remove b.mp3, download d for 4, removed b");
    finish(&mut m, "c");
    assert_eq!(unclaim(&mut m, "c"), "remove c.mp3, removed c");
    assert_eq!(claim(&mut m, 5, "e"), "download e for 5");
}

#[test]
fn no_slot_more_than_asked_for() {
    let mut m = TrackManager::new(0);
    assert_eq!(claim(&mut m, 1, "a"), "download a for 1");
    assert_eq!(claim(&mut m, 2, "b"), "");
}

#[test]
fn a_track_stays_while_it_is_claimed() {
    let mut m = TrackManager::new(1);
    claim(&mut m, 1, "a");
    claim(&mut m, 2, "a");
    finish(&mut m, "a");
    assert_eq!(unclaim(&mut m, "a"), "");
    assert_eq!(unclaim(&mut m, "a"), "remove a.mp3, removed a");
    assert!(!m.knows("a"));
    assert_eq!(unclaim(&mut m, "a"), "");
}

#[test]
fn a_download_for_nobody_is_thrown_away() {
    let mut m = TrackManager::new(1);
    claim(&mut m, 1, "a");
    assert_eq!(unclaim(&mut m, "a"), "");
    assert_eq!(finish(&mut m, "a"), "remove a.mp3, acquired a");
    assert!(m.knows("a"));
}

#[test]
fn a_track_that_is_wanted_again_is_downloaded_again() {
    let mut m = TrackManager::new(1);
    claim(&mut m, 1, "a");
    unclaim(&mut m, "a");
    assert_eq!(claim(&mut m, 2, "a"), "download a for 2");
}

#[test]
fn a_failed_download_gives_its_slot_away() {
    let mut m = TrackManager::new(0);
    claim(&mut m, 1, "a");
    claim(&mut m, 2, "b");
    assert!(m.can_rotate());
    let e = Error::UnknownObject("u".to_owned());
    assert_eq!(
        told(&m.download_error(1, "a".to_owned(), e)),
        "download b for 2, removed a for 1: Unknown youtube object: u"
    );
    let e = Error::UnknownObject("v".to_owned());
    assert_eq!(
        told(&m.download_error(2, "b".to_owned(), e)),
        "removed b for 2: Unknown youtube object: v"
    );
    assert!(!m.can_rotate());
    assert_eq!(claim(&mut m, 3, "c"), "download c for 3");
}

#[test]
fn clear_forgets_everything() {
    let mut m = TrackManager::new(0);
    claim(&mut m, 1, "a");
    claim(&mut m, 2, "b");
    assert_eq!(told(&m.request_handler(Request::Clear)), "");
    assert!(!m.knows("a"));
    assert!(!m.can_rotate());
    assert_eq!(claim(&mut m, 3, "b"), "download b for 3");
}

#[test]
fn a_further_claim_can_be_given_up() {
    let mut m = TrackManager::new(1);
    claim(&mut m, 1, "a");
    let before = format!("{m:?}");
    claim(&mut m, 2, "a");
    unclaim(&mut m, "a");
    assert_eq!(format!("{m:?}"), before);
}

#[test]
fn a_claim_is_not_forgotten() {
    let mut m = TrackManager::new(0);
    assert_eq!(claim(&mut m, 1, "a"), "download a for 1");
    assert_eq!(claim(&mut m, 2, "b"), "");
    assert_eq!(unclaim(&mut m, "b"), "");
    assert_eq!(claim(&mut m, 3, "b"), "");
    finish(&mut m, "a");
    assert_eq!(unclaim(&mut m, "a"), "remove a.mp3, download b for 2, removed a");
    assert_eq!(finish(&mut m, "b"), "acquired b");
    assert_eq!(claim(&mut m, 4, "b"), "acquired b");
}

#[test]
fn a_download_takes_a_slot_or_waits() {
    let mut m = TrackManager::new(0);
    assert_eq!(told(&m.try_download(1, "a".to_owned())), "download a for 1");
    assert_eq!(told(&m.try_download(2, "b".to_owned())), "");
    assert!(!m.knows("a"));
}
