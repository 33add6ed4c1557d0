use std::collections::BTreeMap;

use music_bot::run::{wait_for_tasks, Tasks, Verdict};
use music_bot::util::cancel::{
    task_result, wait_for_all_tasks, wait_for_first_completed_task, TaskResult,
};
use music_bot::util::channel::ChannelError;
use music_bot::util::link::Url;
use music_bot::util::parse::{
    split_line, ArgumentList, ArgumentListError, VolumeCommand, VolumeCommandError,
};
use music_bot::util::sorted::{find, first, put, size, sorted_keys, take};
use music_bot::util::temp_dir::{Attempt, Next, TempDir, ALPHABET, ALPHABET_LENGTH};
use music_bot::util::text::{decimal, pad_left, pad_right, parse_byte, same};
use music_bot::util::text_map::TextMap;

#[test]
fn numbers_are_written() {
    for n in [0, 1, 9, 10, 11, 99, 100, 12345, u64::MAX] {
        assert_eq!(decimal(n), n.to_string());
    }
}

#[test]
fn bytes_are_read() {
    assert_eq!(parse_byte("0"), Some(0));
    assert_eq!(parse_byte("255"), Some(255));
    assert_eq!(parse_byte("256"), None);
    assert_eq!(parse_byte("1000"), None);
    assert_eq!(parse_byte("007"), Some(7));
    assert_eq!(parse_byte("00000000000000000007"), Some(7));
    assert_eq!(parse_byte("+7"), Some(7));
    assert_eq!(parse_byte("-7"), None);
    assert_eq!(parse_byte("+"), None);
    assert_eq!(parse_byte(""), None);
    assert_eq!(parse_byte(" 7"), None);
    assert_eq!(parse_byte("++7"), None);
    assert_eq!(parse_byte("7a"), None);
}

#[test]
fn bytes_are_read_as_std_does() {
    for s in ["0", "1", "+1", "-0", "+", "", "255", "256", "0256", "１", "1 ", "a", "+255", "299"] {
        assert_eq!(parse_byte(s), s.parse::<u8>().ok());
    }
    for n in 0..=255u8 {
        assert_eq!(parse_byte(&decimal(u64::from(n))), Some(n));
    }
}

#[test]
fn text_is_padded() {
    assert_eq!(pad_left("7", ' ', 2), " 7");
    assert_eq!(pad_left("7", '0', 2), "07");
    assert_eq!(pad_left("123", ' ', 2), "123");
    assert_eq!(pad_right("*", ' ', 2), "* ");
    assert_eq!(pad_right("muted", ' ', 6), "muted ");
    assert_eq!(pad_right("volume", ' ', 6), "volume");
    assert_eq!(pad_right("ж", ' ', 3), "ж  ");
}

#[test]
fn text_is_compared() {
    assert!(same("abc", "abc"));
    assert!(!same("abc", "abd"));
    assert!(!same("abc", "ab"));
}

#[test]
fn channel_error_speaks() {
    assert_eq!(ChannelError.message(), "channel error");
}

#[test]
fn text_map_keeps_the_last_value() {
    let mut map: TextMap<u8> = TextMap::new();
    assert!(map.get("a").is_none());
    map.insert("a".to_owned(), 1);
    map.insert("b".to_owned(), 2);
    map.insert("a".to_owned(), 3);
    assert_eq!(map.get("a"), Some(&3));
    assert_eq!(map.get("b"), Some(&2));
    assert_eq!(map.remove("a"), Some(3));
    assert_eq!(map.remove("a"), None);
    assert!(!map.contains_key("a"));
    assert!(map.contains_key("b"));
    map.clear();
    assert!(!map.contains_key("b"));
}

#[test]
fn maps_are_read_in_order() {
    let mut map: BTreeMap<usize, char> = BTreeMap::new();
    assert_eq!(first(&map), None);
    put(&mut map, 5, 'e');
    put(&mut map, 2, 'b');
    put(&mut map, 9, 'i');
    put(&mut map, 5, 'E');
    assert_eq!(sorted_keys(&map), vec![2, 5, 9]);
    assert_eq!(first(&map), Some((2, &'b')));
    assert_eq!(find(&map, 5), Some(&'E'));
    assert_eq!(take(&mut map, 2), Some('b'));
    assert_eq!(take(&mut map, 2), None);
    assert_eq!(size(&map), 2);
}

#[test]
fn volume_commands_are_read() {
    assert_eq!(VolumeCommand::from_str("+"), Ok(VolumeCommand::Increase));
    assert_eq!(VolumeCommand::from_str("-"), Ok(VolumeCommand::Decrease));
    assert_eq!(VolumeCommand::from_str("0"), Ok(VolumeCommand::SetTo(0)));
    assert_eq!(VolumeCommand::from_str("20"), Ok(VolumeCommand::SetTo(20)));
    assert_eq!(VolumeCommand::from_str("+5"), Ok(VolumeCommand::SetTo(5)));
    assert_eq!(VolumeCommand::from_str("21"), Err(VolumeCommandError));
    assert_eq!(VolumeCommand::from_str("300"), Err(VolumeCommandError));
    assert_eq!(VolumeCommand::from_str(""), Err(VolumeCommandError));
    assert_eq!(VolumeCommand::from_str("loud"), Err(VolumeCommandError));
    assert_eq!(VolumeCommandError.message(), "invalid volume command");
}

#[test]
fn levels_are_read_back() {
    for level in 0..=20u8 {
        assert_eq!(
            VolumeCommand::from_str(&decimal(u64::from(level))),
            Ok(VolumeCommand::SetTo(level))
        );
    }
}

#[test]
fn lines_are_split_like_a_shell_does() {
    assert_eq!(
        split_line("queue 'a b' \"c d\" e\\ f"),
        Ok(vec!["queue".to_owned(), "a b".to_owned(), "c d".to_owned(), "e f".to_owned()])
    );
    assert_eq!(split_line("  \n"), Ok(vec![]));
    assert_eq!(split_line("'a"), Err("missing closing quote".to_owned()));
    assert_eq!(split_line("'a").unwrap_err(), shell_words::ParseError.to_string());
}

#[test]
fn argument_lists_are_read() {
    let list: ArgumentList<String> = match ArgumentList::from_str("a 'b c'") {
        Ok(list) => list,
        Err(_) => panic!("not read"),
    };
    assert_eq!(list.as_vec(), &vec!["a".to_owned(), "b c".to_owned()]);
    assert_eq!(list.into_vec(), vec!["a".to_owned(), "b c".to_owned()]);
}

#[test]
fn an_empty_line_is_an_empty_list() {
    for line in ["", " "] {
        let list: ArgumentList<Url> = match ArgumentList::from_str(line) {
            Ok(list) => list,
            Err(_) => panic!("not read"),
        };
        assert!(list.into_vec().is_empty());
    }
    assert!(ArgumentList::<Url>::default().into_vec().is_empty());
}

#[test]
fn addresses_are_read() {
    let list: ArgumentList<Url> =
        match ArgumentList::from_str("https://youtu.be/a HTTP://Example.COM") {
            Ok(list) => list,
            Err(_) => panic!("not read"),
        };
    let list = list.into_vec();
    assert_eq!(list[0].as_str(), "https://youtu.be/a");
    assert_eq!(list[0].host_str(), Some("youtu.be"));
    assert_eq!(list[1].as_str(), "http://example.com/");
    assert_eq!(list[1].host_str(), Some("example.com"));
}

#[test]
fn the_first_bad_address_is_the_error() {
    let result: Result<ArgumentList<Url>, _> = ArgumentList::from_str("https://a.b/ c http://");
    match result {
        Err(ArgumentListError::ParseArg(e)) => {
            assert_eq!(e.message, "relative URL without a base");
            assert_eq!(
                ArgumentListError::ParseArg(e).message(),
                "relative URL without a base"
            );
        }
        _ => panic!("no error of an argument"),
    }
}

#[test]
fn an_open_quote_is_an_error() {
    let result: Result<ArgumentList<Url>, _> = ArgumentList::from_str("'https://a.b/");
    match result {
        Err(e) => assert_eq!(e.message(), "invalid argument list: missing closing quote"),
        Ok(_) => panic!("no error"),
    }
}

#[test]
fn addresses_are_parsed_as_the_url_crate_does() {
    for s in ["https://www.youtube.com/watch?v=a b", "mailto:a@b.c", "file:///a", "x", ""] {
        match (Url::parse(s), url::Url::parse(s)) {
            (Ok(a), Ok(b)) => {
                assert_eq!(a.as_str(), b.as_str());
                assert_eq!(a.host_str(), b.host_str());
                assert_eq!(a.clone().as_str(), b.as_str());
            }
            (Err(a), Err(b)) => assert_eq!(a.message, b.to_string()),
            _ => panic!("different for {s}"),
        }
    }
}

#[test]
fn names_are_made_from_the_alphabet() {
    assert_eq!(ALPHABET.chars().count(), ALPHABET_LENGTH);
    assert_eq!(TempDir::name_from(&vec![0, 25, 26, 51, 52, 61, 62, 1]), "tmpazAZ09-b");
    for _ in 0..100 {
        let name = TempDir::make_name();
        assert_eq!(name.len(), 11);
        assert!(name.starts_with("tmp"));
        assert!(name[3..].chars().all(|c| ALPHABET.contains(c)));
    }
    let names: Vec<String> = (0..20).map(|_| TempDir::make_name()).collect();
    assert!(names.iter().any(|n| n != &names[0]));
}

#[test]
fn a_taken_name_is_tried_again() {
    match TempDir::create_dir("d/tmpa".to_owned(), Attempt::Created) {
        Next::Done(dir) => assert_eq!(dir.path(), "d/tmpa"),
        _ => panic!("not done"),
    }
    match TempDir::create_dir("d/tmpa".to_owned(), Attempt::AlreadyExists) {
        Next::Again(name) => assert!(name.starts_with("tmp")),
        _ => panic!("not tried again"),
    }
    assert!(matches!(TempDir::create_dir("d/tmpa".to_owned(), Attempt::Failed), Next::Fail));
}

#[test]
fn a_task_has_one_result() {
    assert_eq!(task_result::<u8>(Ok(Ok(()))), Ok(()));
    assert_eq!(task_result::<u8>(Ok(Err(1))), Err(1));
    assert_eq!(task_result::<u8>(Err(2)), Err(2));
}

#[test]
fn the_others_go_on_or_are_cancelled() {
    assert_eq!(wait_for_first_completed_task::<_, u8>(Ok(Ok(())), vec![1, 2]), Ok(vec![1, 2]));
    assert_eq!(
        wait_for_first_completed_task::<_, u8>(Ok(Err(7)), vec![1, 2]),
        Err((vec![1, 2], 7))
    );
    assert_eq!(wait_for_first_completed_task::<_, u8>(Err(8), vec![1]), Err((vec![1], 8)));
}

#[test]
fn all_tasks_have_one_error() {
    let done: TaskResult<u8> = Ok(Ok(()));
    assert_eq!(wait_for_all_tasks::<u8>(vec![]), Ok(()));
    assert_eq!(wait_for_all_tasks(vec![done, done]), Ok(()));
    assert_eq!(wait_for_all_tasks(vec![done, Ok(Err(1)), Ok(Err(2))]), Err(1));
    assert_eq!(wait_for_all_tasks(vec![Ok(Err(1)), Err(3), Err(4)]), Err(3));
}

#[test]
fn the_first_error_cancels() {
    let mut tasks: Tasks<u8> = Tasks::new();
    assert!(matches!(tasks.ended(Ok(Ok(()))), Verdict::GoOn));
    assert!(matches!(tasks.ended(Ok(Err(1))), Verdict::Cancel));
    assert!(matches!(tasks.ended(Err(2)), Verdict::Suppressed(2)));
    assert!(matches!(tasks.ended(Ok(Ok(()))), Verdict::GoOn));
    assert_eq!(tasks.result(), Err(1));
    assert_eq!(Tasks::<u8>::new().result(), Ok(()));
}

#[test]
fn the_first_error_is_the_result() {
    assert_eq!(wait_for_tasks::<u8>(vec![]), Ok(()));
    assert_eq!(wait_for_tasks::<u8>(vec![Ok(Ok(()))]), Ok(()));
    assert_eq!(wait_for_tasks::<u8>(vec![Ok(Ok(())), Err(5), Ok(Err(6))]), Err(5));
}
