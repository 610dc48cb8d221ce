//! The player-status query: the script that asks the player for its state,
//! and the parser for the six-field line that the script prints.

use vstd::prelude::*;
use vstd::utf8::{decode_utf8, valid_utf8};
use crate::error::{check_run, is_execution_error, script_failed_text, ScriptRun, SpotifyError};
use crate::text::{
    decode_lossy, is_ws, join_pipes, lemma_split_join, lemma_split_len, lemma_trim_keeps_pipes,
    lossy_utf8, no_pipe, parse_u32_or_zero, parse_u32_spec, pipe_count, split_fields, split_pipes,
    trim, trim_end, trim_start, trim_whitespace, u32_or_zero, views,
};

verus! {

/// The script that reports the player's state as one line
/// `name|artist|artwork|state|duration_ms|position_ms`, or a fixed line
/// with state `stopped` and zero times when the player is not running.
pub const STATUS_SCRIPT: &'static str = r#"
        on run
            if application "Spotify" is running then
                tell application "Spotify"
                    set track_id to current track's name
                    set artist_name to artist of current track
                    set artUrl to artwork url of current track
                    set track_duration to duration of current track
                    set player_position to player position
                    set player_state to player state as string
                    return track_id & "|" & artist_name & "|" & artUrl & "|" & player_state & "|" & track_duration & "|" & (player_position * 1000 as integer)
                end tell
            else
                return "Not Running|None||stopped|0|0"
            end if
        end run
    "#;

/// A point-in-time reading of the player.
#[derive(Clone, Debug, PartialEq, Eq)]
pub struct SpotifyData {
    pub track_name: String,
    pub artist: String,
    pub album_art: String,
    pub is_playing: bool,
    /// Elapsed playback position, in whole seconds.
    pub time_played: u32,
    /// Track duration, in milliseconds.
    pub total_time: u32,
}

/// The model of a `SpotifyData`: its text fields as character sequences.
pub struct SpotifyDataView {
    pub track_name: Seq<char>,
    pub artist: Seq<char>,
    pub album_art: Seq<char>,
    pub is_playing: bool,
    pub time_played: u32,
    pub total_time: u32,
}

impl View for SpotifyData {
    type V = SpotifyDataView;

    open spec fn view(&self) -> SpotifyDataView {
        SpotifyDataView {
            track_name: self.track_name@,
            artist: self.artist@,
            album_art: self.album_art@,
            is_playing: self.is_playing,
            time_played: self.time_played,
            total_time: self.total_time,
        }
    }
}

/// The state word of a player that is playing.
pub open spec fn playing_word() -> Seq<char> {
    seq!['p', 'l', 'a', 'y', 'i', 'n', 'g']
}

/// The snapshot that fields `f` (at least six of them) describe.
pub open spec fn snapshot_of(f: Seq<Seq<char>>) -> SpotifyDataView
    recommends
        f.len() >= 6,
{
    SpotifyDataView {
        track_name: f[0],
        artist: f[1],
        album_art: f[2],
        is_playing: f[3] == playing_word(),
        total_time: u32_or_zero(f[4]),
        time_played: (u32_or_zero(f[5]) / 1000) as u32,
    }
}

/// The fields of a status line: the pieces of the trimmed line between `|`.
pub open spec fn status_fields(line: Seq<char>) -> Seq<Seq<char>> {
    split_pipes(trim(line))
}

/// The snapshot that a status line describes, or `None` where it has fewer
/// than six fields. Fields after the sixth are ignored.
pub open spec fn status_of(line: Seq<char>) -> Option<SpotifyDataView> {
    let f = status_fields(line);
    if f.len() >= 6 {
        Some(snapshot_of(f))
    } else {
        None
    }
}

/// `r` is what parsing `line` gives.
pub open spec fn parsed_as(line: Seq<char>, r: Result<SpotifyData, SpotifyError>) -> bool {
    match status_of(line) {
        Some(v) => r matches Ok(d) && d@ == v,
        None => r == Err::<SpotifyData, SpotifyError>(SpotifyError::MalformedOutput),
    }
}

fn is_playing_word(s: &String) -> (r: bool)
    ensures
        r == (s@ == playing_word()),
{
    let t = s.as_str();
    if t.unicode_len() != 7 {
        return false;
    }
    let r = t.get_char(0) == 'p' && t.get_char(1) == 'l' && t.get_char(2) == 'a'
        && t.get_char(3) == 'y' && t.get_char(4) == 'i' && t.get_char(5) == 'n'
        && t.get_char(6) == 'g';
    if r {
        assert(t@ =~= playing_word());
    }
    r
}

/// Parses one status line into a snapshot.
pub fn parse_status_line(line: &str) -> (r: Result<SpotifyData, SpotifyError>)
    ensures
        parsed_as(line@, r),
{
    let trimmed = trim_whitespace(line);
    let parts = split_fields(trimmed);
    proof {
        assert(parts@.len() == views(parts@).len());
    }
    if parts.len() < 6 {
        return Err(SpotifyError::MalformedOutput);
    }
    proof {
        assert forall|k: int| 0 <= k < 6 implies views(parts@)[k] == parts@[k]@ by {}
    }
    let data = SpotifyData {
        track_name: parts[0].clone(),
        artist: parts[1].clone(),
        album_art: parts[2].clone(),
        is_playing: is_playing_word(&parts[3]),
        total_time: parse_u32_or_zero(parts[4].as_str()),
        time_played: parse_u32_or_zero(parts[5].as_str()) / 1000,
    };
    Ok(data)
}

/// Turns the outcome of running `STATUS_SCRIPT` into a snapshot: a launch
/// failure or a failure status is an execution error; otherwise the output,
/// read as UTF-8 with invalid sequences replaced, is parsed.
pub fn status_from_run(run: Result<ScriptRun, String>) -> (r: Result<SpotifyData, SpotifyError>)
    ensures
        run is Err ==> is_execution_error(r, run->Err_0@),
        run is Ok && !run->Ok_0.success ==> is_execution_error(r, script_failed_text()),
        run is Ok && run->Ok_0.success ==> parsed_as(lossy_utf8(run->Ok_0.stdout@), r),
        run is Ok && run->Ok_0.success && valid_utf8(run->Ok_0.stdout@) ==> parsed_as(
            decode_utf8(run->Ok_0.stdout@),
            r,
        ),
{
    match check_run(run) {
        Err(e) => Err(e),
        Ok(bytes) => {
            let text = decode_lossy(bytes.as_slice());
            parse_status_line(text.as_str())
        },
    }
}

/// Six fields that hold no separator, where the line neither starts nor ends
/// with whitespace, written as `f0|f1|f2|f3|f4|f5`, always parse, and give
/// exactly the snapshot of those fields.
pub proof fn lemma_six_fields_parse(f: Seq<Seq<char>>)
    requires
        f.len() == 6,
        forall|k: int| 0 <= k < 6 ==> #[trigger] no_pipe(f[k]),
        f[0].len() == 0 || !is_ws(f[0][0]),
        f[5].len() == 0 || !is_ws(f[5].last()),
    ensures
        status_of(join_pipes(f)) == Some(snapshot_of(f)),
{
    let line = join_pipes(f);
    let g = f.drop_last();
    let x = join_pipes(g) + seq!['|'];
    assert(line == x + f[5]);
    lemma_split_join(f);
    // the line starts with the first field, or with a separator
    assert(line.len() > 0 && !is_ws(line[0])) by {
        lemma_join_starts(f);
    }
    assert(line.len() > 0 && !is_ws(line.last())) by {
        if f[5].len() == 0 {
            assert(line.last() == '|');
        } else {
            assert(line.last() == f[5].last());
        }
    }
    assert(trim_start(line) == line);
    assert(trim_end(line) == line);
}

proof fn lemma_join_starts(f: Seq<Seq<char>>)
    requires
        f.len() >= 2,
        f[0].len() == 0 || !is_ws(f[0][0]),
    ensures
        join_pipes(f).len() > 0,
        !is_ws(join_pipes(f)[0]),
    decreases f.len(),
{
    let g = f.drop_last();
    if f.len() == 2 {
        assert(g.len() == 1);
        assert(join_pipes(g) == f[0]);
        if f[0].len() == 0 {
            assert((join_pipes(g) + seq!['|'] + f.last())[0] == '|');
        } else {
            assert((join_pipes(g) + seq!['|'] + f.last())[0] == f[0][0]);
        }
    } else {
        lemma_join_starts(g);
        assert((join_pipes(g) + seq!['|'] + f.last())[0] == join_pipes(g)[0]);
    }
}

/// A line with fewer than five separators (so fewer than six fields) never
/// parses, whatever its fields hold.
pub proof fn lemma_few_fields_malformed(line: Seq<char>)
    requires
        pipe_count(line) < 5,
    ensures
        status_of(line) is None,
{
    lemma_trim_keeps_pipes(line);
    lemma_split_len(trim(line));
}

/// The player is reported as playing exactly when the fourth field is the
/// word `playing`, with that case; any other word, or none, reads as not
/// playing.
pub proof fn lemma_is_playing_iff(line: Seq<char>)
    requires
        status_of(line) is Some,
    ensures
        status_of(line)->0.is_playing <==> status_fields(line)[3] =~= playing_word(),
{
}

/// The elapsed time is the position in milliseconds divided by 1000,
/// rounded down; a position that is not a number gives 0.
pub proof fn lemma_time_played(line: Seq<char>)
    requires
        status_of(line) is Some,
    ensures
        parse_u32_spec(status_fields(line)[5]) matches Some(p) ==> status_of(line)->0.time_played
            == p / 1000,
        parse_u32_spec(status_fields(line)[5]) is None ==> status_of(line)->0.time_played == 0,
        status_of(line)->0.total_time == u32_or_zero(status_fields(line)[4]),
{
}

/// Parsing has no hidden state: two parses of one line agree field by
/// field, and fail alike.
pub proof fn lemma_parse_deterministic(
    line: Seq<char>,
    r1: Result<SpotifyData, SpotifyError>,
    r2: Result<SpotifyData, SpotifyError>,
)
    requires
        parsed_as(line, r1),
        parsed_as(line, r2),
    ensures
        r1 is Ok <==> r2 is Ok,
        r1 is Ok ==> r1->Ok_0@ == r2->Ok_0@,
        r1 is Err ==> r1 == r2,
{
}

} // verus!
