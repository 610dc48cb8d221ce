use spotify_menubar::error::{ScriptRun, SpotifyError};
use spotify_menubar::status::{parse_status_line, status_from_run, SpotifyData, STATUS_SCRIPT};

fn data(name: &str, artist: &str, art: &str, playing: bool, total: u32, played: u32) -> SpotifyData {
    SpotifyData {
        track_name: name.to_string(),
        artist: artist.to_string(),
        album_art: art.to_string(),
        is_playing: playing,
        time_played: played,
        total_time: total,
    }
}

#[test]
fn playing_track_is_parsed() {
    let r = parse_status_line("Song|Artist|http://art|playing|180000|45000");
    assert_eq!(r, Ok(data("Song", "Artist", "http://art", true, 180000, 45)));
}

#[test]
fn not_running_line_is_parsed() {
    let r = parse_status_line("Not Running|None||stopped|0|0").unwrap();
    assert_eq!(r, data("Not Running", "None", "", false, 0, 0));
}

#[test]
fn bad_position_reads_as_zero() {
    let r = parse_status_line("Song|Artist|art|paused|200000|notanumber").unwrap();
    assert!(!r.is_playing);
    assert_eq!(r.total_time, 200000);
    assert_eq!(r.time_played, 0);
}

#[test]
fn four_fields_are_malformed() {
    assert_eq!(parse_status_line("Song|Artist|art|playing"), Err(SpotifyError::MalformedOutput));
}

#[test]
fn five_fields_are_malformed() {
    assert_eq!(parse_status_line("a|b|c|playing|1"), Err(SpotifyError::MalformedOutput));
    assert_eq!(parse_status_line(""), Err(SpotifyError::MalformedOutput));
    assert_eq!(parse_status_line("|||"), Err(SpotifyError::MalformedOutput));
}

#[test]
fn empty_fields_still_parse() {
    assert_eq!(parse_status_line("|||||"), Ok(data("", "", "", false, 0, 0)));
}

#[test]
fn extra_fields_are_ignored() {
    let r = parse_status_line("A|B|C|playing|10|2500|extra|more").unwrap();
    assert_eq!(r, data("A", "B", "C", true, 10, 2));
}

#[test]
fn surrounding_whitespace_is_trimmed() {
    let r = parse_status_line("\n\t  Song Name|The Artist|x|playing|5|6000 \r\n").unwrap();
    assert_eq!(r, data("Song Name", "The Artist", "x", true, 5, 6));
    let r = parse_status_line("\u{3000}A|B|C|paused|1|2\u{a0}").unwrap();
    assert_eq!(r.track_name, "A");
}

#[test]
fn playing_word_is_exact() {
    for state in ["Playing", "PLAYING", "paused", "stopped", "", " playing", "playing2"] {
        let line = format!("A|B|C|{}|1|1", state);
        assert!(!parse_status_line(&line).unwrap().is_playing, "state {:?}", state);
    }
    assert!(parse_status_line("A|B|C|playing|1|1").unwrap().is_playing);
}

#[test]
fn position_is_floored_to_seconds() {
    let cases = [("0", 0u32), ("999", 0), ("1000", 1), ("1999", 1), ("45000", 45), ("4294967295", 4294967)];
    for (pos, secs) in cases {
        let line = format!("A|B|C|playing|1|{}", pos);
        assert_eq!(parse_status_line(&line).unwrap().time_played, secs, "position {}", pos);
    }
}

#[test]
fn numbers_follow_unsigned_parsing() {
    let cases = [
        ("+7", 7u32),
        ("007", 7),
        ("4294967295", 4294967295),
        ("4294967296", 0),
        ("99999999999999999999", 0),
        ("-1", 0),
        ("-0", 0),
        ("+", 0),
        ("", 0),
        ("1 2", 0),
        ("12a", 0),
        ("++1", 0),
    ];
    for (text, want) in cases {
        let line = format!("A|B|C|paused|{}|0", text);
        assert_eq!(parse_status_line(&line).unwrap().total_time, want, "total {:?}", text);
    }
}

#[test]
fn parsing_twice_gives_the_same_snapshot() {
    let line = "Song|Artist|art|paused|200000|61000";
    assert_eq!(parse_status_line(line), parse_status_line(line));
    assert_eq!(parse_status_line("x|y"), parse_status_line("x|y"));
}

#[test]
fn failed_status_run_is_an_execution_error() {
    let run = ScriptRun { success: false, stdout: b"Song|Artist|art|playing|1|1".to_vec() };
    let r = status_from_run(Ok(run));
    assert_eq!(r, Err(SpotifyError::Execution("Failed to execute AppleScript".to_string())));
}

#[test]
fn unlaunched_status_run_keeps_its_message() {
    let r = status_from_run(Err("No such file or directory (os error 2)".to_string()));
    assert_eq!(r, Err(SpotifyError::Execution("No such file or directory (os error 2)".to_string())));
}

#[test]
fn successful_status_run_is_parsed() {
    let run = ScriptRun { success: true, stdout: b"Song|Artist|http://art|playing|180000|45000\n".to_vec() };
    assert_eq!(status_from_run(Ok(run)), Ok(data("Song", "Artist", "http://art", true, 180000, 45)));
    let run = ScriptRun { success: true, stdout: b"only|three|fields".to_vec() };
    assert_eq!(status_from_run(Ok(run)), Err(SpotifyError::MalformedOutput));
}

#[test]
fn status_output_is_read_as_utf8() {
    let mut bytes = "Caf\u{e9}|Bj\u{f6}rk|a|playing|1|1".as_bytes().to_vec();
    let run = ScriptRun { success: true, stdout: bytes.clone() };
    let r = status_from_run(Ok(run)).unwrap();
    assert_eq!(r.track_name, "Caf\u{e9}");
    assert_eq!(r.artist, "Bj\u{f6}rk");
    bytes[0] = 0xff;
    let run = ScriptRun { success: true, stdout: bytes };
    let r = status_from_run(Ok(run)).unwrap();
    assert_eq!(r.track_name, "\u{fffd}af\u{e9}");
}

#[test]
fn status_script_has_a_not_running_line() {
    assert!(STATUS_SCRIPT.contains("return \"Not Running|None||stopped|0|0\""));
    assert!(STATUS_SCRIPT.contains("application \"Spotify\" is running"));
}

#[test]
fn error_messages() {
    assert_eq!(SpotifyError::MalformedOutput.message(), "Invalid output format from AppleScript");
    assert_eq!(SpotifyError::InvalidAction.message(), "Invalid action");
    assert_eq!(SpotifyError::Execution("boom".to_string()).message(), "boom");
}
