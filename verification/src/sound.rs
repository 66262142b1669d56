//! Parsing of the mixer tool's output and construction of its command
//! lines.
//!
//! Volume control shells out to the system mixer: one invocation lists
//! the control channels, one reads a channel's volume, one sets it.  The
//! process handling belongs to the caller; the text the tool prints is
//! decoded here, and the argument lists to run it with are built here.

use vstd::prelude::*;

use crate::numbers;
use crate::text;
use crate::utils::Ev3Error;
use crate::utils::Ev3Result;

verus! {

/// Index of the first occurrence of `c` in `s`, `-1` for none.
pub open spec fn first_index_of(s: Seq<char>, c: char) -> int
    decreases s.len(),
{
    if s.len() == 0 {
        -1
    } else if s[0] == c {
        0
    } else {
        let r = first_index_of(s.drop_first(), c);
        if r == -1 {
            -1
        } else {
            r + 1
        }
    }
}

/// Index of the last occurrence of `c` in `s`, `-1` for none.
pub open spec fn last_index_of(s: Seq<char>, c: char) -> int
    decreases s.len(),
{
    if s.len() == 0 {
        -1
    } else if s.last() == c {
        s.len() - 1
    } else {
        last_index_of(s.drop_last(), c)
    }
}

pub proof fn lemma_first_index_range(s: Seq<char>, c: char)
    ensures
        -1 <= first_index_of(s, c) < s.len(),
        first_index_of(s, c) >= 0 ==> s[first_index_of(s, c)] == c,
    decreases s.len(),
{
    if s.len() > 0 && s[0] != c {
        lemma_first_index_range(s.drop_first(), c);
    }
}

proof fn lemma_first_index_some(s: Seq<char>, c: char, i: int)
    requires
        0 <= i < s.len(),
        s[i] == c,
        forall|k: int| 0 <= k < i ==> s[k] != c,
    ensures
        first_index_of(s, c) == i,
    decreases i,
{
    if i > 0 {
        assert(forall|k: int| 0 <= k < i - 1 ==> s.drop_first()[k] == s[k + 1]);
        lemma_first_index_some(s.drop_first(), c, i - 1);
    }
}

proof fn lemma_first_index_none(s: Seq<char>, c: char)
    requires
        forall|k: int| 0 <= k < s.len() ==> s[k] != c,
    ensures
        first_index_of(s, c) == -1,
    decreases s.len(),
{
    if s.len() > 0 {
        assert(forall|k: int| 0 <= k < s.len() - 1 ==> s.drop_first()[k] == s[k + 1]);
        lemma_first_index_none(s.drop_first(), c);
    }
}

proof fn lemma_last_index_some(s: Seq<char>, c: char, i: int)
    requires
        0 <= i < s.len(),
        s[i] == c,
        forall|k: int| i < k < s.len() ==> s[k] != c,
    ensures
        last_index_of(s, c) == i,
    decreases s.len(),
{
    if i < s.len() - 1 {
        lemma_last_index_some(s.drop_last(), c, i);
    }
}

proof fn lemma_last_index_none(s: Seq<char>, c: char)
    requires
        forall|k: int| 0 <= k < s.len() ==> s[k] != c,
    ensures
        last_index_of(s, c) == -1,
    decreases s.len(),
{
    if s.len() > 0 {
        lemma_last_index_none(s.drop_last(), c);
    }
}

/// The channel name a mixer listing line carries: the text between its
/// first and last single quote, when both exist and enclose something.
pub open spec fn channel_of_line(l: Seq<char>) -> Option<Seq<char>> {
    let vs = (if first_index_of(l, '\'') == -1 {
        0int
    } else {
        first_index_of(l, '\'')
    }) + 1;
    let ve = if last_index_of(l, '\'') == -1 {
        1int
    } else {
        last_index_of(l, '\'')
    };
    if vs >= ve {
        Option::None
    } else {
        Option::Some(l.subrange(vs, ve))
    }
}

/// `s` split at every line feed, empty segments kept.
pub open spec fn split_lines(s: Seq<char>) -> Seq<Seq<char>>
    decreases s.len(),
{
    let k = first_index_of(s, '\n');
    if k == -1 {
        seq![s]
    } else {
        proof {
            lemma_first_index_range(s, '\n');
        }
        seq![s.take(k)] + split_lines(s.skip(k + 1))
    }
}

/// The channel names of a sequence of listing lines, in order.
pub open spec fn channels_of_lines(lines: Seq<Seq<char>>) -> Seq<Seq<char>>
    decreases lines.len(),
{
    if lines.len() == 0 {
        Seq::empty()
    } else {
        let rest = channels_of_lines(lines.drop_first());
        if channel_of_line(lines[0]) is Some {
            seq![channel_of_line(lines[0])->0] + rest
        } else {
            rest
        }
    }
}

/// The channels a mixer listing denotes; a listing without any falls back
/// to the sole channel of the brick's own mixer.
pub open spec fn channels_of_output(out: Seq<char>) -> Seq<Seq<char>> {
    let cs = channels_of_lines(split_lines(out));
    if cs.len() == 0 {
        seq!["Playback"@]
    } else {
        cs
    }
}

/// Extracts the channel name of one listing line.
fn channel_from_line(line: &str) -> (r: Option<String>)
    ensures
        r is Some <==> channel_of_line(line@) is Some,
        r matches Some(c) ==> channel_of_line(line@) == Option::Some(c@),
{
    let len = line.unicode_len();
    let vs: usize = match text::find_char(line, '\'') {
        Some(i) => {
            proof {
                lemma_first_index_some(line@, '\'', i as int);
            }
            assert(i < len);
            i + 1
        },
        None => {
            proof {
                lemma_first_index_none(line@, '\'');
            }
            1
        },
    };
    let ve: usize = match text::rfind_char(line, '\'') {
        Some(i) => {
            proof {
                lemma_last_index_some(line@, '\'', i as int);
            }
            i
        },
        None => {
            proof {
                lemma_last_index_none(line@, '\'');
            }
            1
        },
    };
    if vs >= ve {
        None
    } else {
        Some(text::substring_to_string(line, vs, ve))
    }
}

/// Decodes the channel names from the mixer's channel listing, falling
/// back to `Playback` when the listing shows none.
pub fn parse_channels(out: &str) -> (r: Vec<String>)
    ensures
        r@.map_values(|s: String| s@) == channels_of_output(out@),
{
    let len = out.unicode_len();
    let mut channels: Vec<String> = Vec::new();
    let mut pos: usize = 0;
    let mut more: bool = true;
    proof {
        assert(out@.skip(0) =~= out@);
        assert(channels@.map_values(|s: String| s@) + channels_of_lines(split_lines(out@))
            =~= channels_of_lines(split_lines(out@)));
    }
    while more
        invariant
            len == out@.len(),
            0 <= pos <= len,
            channels_of_lines(split_lines(out@)) == channels@.map_values(|s: String| s@) + (
            if more {
                channels_of_lines(split_lines(out@.skip(pos as int)))
            } else {
                Seq::<Seq<char>>::empty()
            }),
        decreases len - pos + (if more {
            1int
        } else {
            0int
        }),
    {
        let mut k: usize = pos;
        while k < len && out.get_char(k) != '\n'
            invariant
                len == out@.len(),
                pos <= k <= len,
                forall|j: int| pos <= j < k ==> out@[j] != '\n',
            decreases len - k,
        {
            k = k + 1;
        }
        let ghost rem = out@.skip(pos as int);
        let line = out.substring_char(pos, k);
        proof {
            assert(forall|j: int| 0 <= j < k - pos ==> rem[j] == out@[j + pos]);
            assert(line@ =~= rem.take(k - pos));
            if k < len {
                assert(rem[k - pos] == '\n');
                lemma_first_index_some(rem, '\n', k - pos);
                assert(split_lines(rem) == seq![rem.take(k - pos)] + split_lines(
                    rem.skip(k - pos + 1),
                ));
                assert(rem.skip(k - pos + 1) =~= out@.skip(k + 1));
                assert(split_lines(rem).drop_first() =~= split_lines(out@.skip(k + 1)));
                assert(split_lines(rem)[0] == line@);
            } else {
                lemma_first_index_none(rem, '\n');
                assert(split_lines(rem) == seq![rem]);
                assert(rem =~= line@);
                assert(split_lines(rem)[0] == line@);
                assert(split_lines(rem).drop_first() =~= Seq::<Seq<char>>::empty());
                assert(channels_of_lines(split_lines(rem).drop_first()) =~= Seq::<
                    Seq<char>,
                >::empty());
            }
        }
        let ghost prev = channels@;
        match channel_from_line(line) {
            Some(c) => {
                channels.push(c);
                proof {
                    assert(channels@.map_values(|s: String| s@) =~= prev.map_values(
                        |s: String| s@,
                    ).push(channel_of_line(line@)->0));
                    assert(prev.map_values(|s: String| s@).push(channel_of_line(line@)->0)
                        =~= prev.map_values(|s: String| s@) + seq![channel_of_line(line@)->0]);
                }
            },
            None => {
            },
        }
        proof {
            assert(channels_of_lines(split_lines(rem)) == (if channel_of_line(line@) is Some {
                seq![channel_of_line(line@)->0] + channels_of_lines(split_lines(rem).drop_first())
            } else {
                channels_of_lines(split_lines(rem).drop_first())
            }));
        }
        if k < len {
            pos = k + 1;
        } else {
            more = false;
        }
    }
    if channels.len() == 0 {
        let mut fallback: Vec<String> = Vec::new();
        fallback.push(String::from_str("Playback"));
        proof {
            assert(channels@.map_values(|s: String| s@) =~= Seq::<Seq<char>>::empty());
            assert(fallback@.map_values(|s: String| s@) =~= seq!["Playback"@]);
        }
        fallback
    } else {
        proof {
            assert(channels@.map_values(|s: String| s@).len() > 0);
        }
        channels
    }
}

/// Index of the first occurrence of `sub` in `s`, `-1` for none.
pub open spec fn first_sub_index_of(s: Seq<char>, sub: Seq<char>) -> int
    decreases s.len(),
{
    if sub.len() > s.len() {
        -1
    } else if s.subrange(0, sub.len() as int) == sub {
        0
    } else if s.len() == sub.len() {
        -1
    } else {
        let r = first_sub_index_of(s.drop_first(), sub);
        if r == -1 {
            -1
        } else {
            r + 1
        }
    }
}

proof fn lemma_first_sub_index_some(s: Seq<char>, sub: Seq<char>, i: int)
    requires
        text::matches_at(s, sub, i),
        forall|k: int| 0 <= k < i ==> !text::matches_at(s, sub, k),
    ensures
        first_sub_index_of(s, sub) == i,
    decreases i,
{
    assert(s.subrange(i, i + sub.len() as int) == sub);
    if i == 0 {
        assert(s.subrange(0, sub.len() as int) == sub);
    } else {
        assert(!text::matches_at(s, sub, 0));
        assert(s.subrange(0, sub.len() as int) != sub);
        assert(s.len() > sub.len());
        let d = s.drop_first();
        assert forall|k: int| 0 <= k < i - 1 implies !text::matches_at(d, sub, k) by {
            assert(!text::matches_at(s, sub, k + 1));
            if 0 <= k && k + sub.len() <= d.len() {
                assert(d.subrange(k, k + sub.len() as int) =~= s.subrange(
                    k + 1,
                    k + 1 + sub.len() as int,
                ));
            }
        }
        assert(d.subrange(i - 1, i - 1 + sub.len() as int) =~= s.subrange(
            i,
            i + sub.len() as int,
        ));
        assert(text::matches_at(d, sub, i - 1));
        lemma_first_sub_index_some(d, sub, i - 1);
    }
}

proof fn lemma_first_sub_index_none(s: Seq<char>, sub: Seq<char>)
    requires
        forall|k: int| !text::matches_at(s, sub, k),
    ensures
        first_sub_index_of(s, sub) == -1,
    decreases s.len(),
{
    if sub.len() <= s.len() {
        assert(!text::matches_at(s, sub, 0));
        assert(s.subrange(0, sub.len() as int) != sub);
        if s.len() > sub.len() {
            let d = s.drop_first();
            assert forall|k: int| !text::matches_at(d, sub, k) by {
                if 0 <= k && k + sub.len() <= d.len() {
                    assert(d.subrange(k, k + sub.len() as int) =~= s.subrange(
                        k + 1,
                        k + 1 + sub.len() as int,
                    ));
                    assert(!text::matches_at(s, sub, k + 1));
                }
            }
            lemma_first_sub_index_none(d, sub);
        }
    }
}

/// Position of the first occurrence of `sub` in `s`.
pub fn find_substr(s: &str, sub: &str) -> (r: Option<usize>)
    ensures
        r matches Some(i) ==> first_sub_index_of(s@, sub@) == i,
        r is None ==> first_sub_index_of(s@, sub@) == -1,
{
    let s_len = s.unicode_len();
    let n_len = sub.unicode_len();
    if n_len > s_len {
        proof {
            lemma_first_sub_index_none(s@, sub@);
        }
        return None;
    }
    let mut p: usize = 0;
    while p <= s_len - n_len
        invariant
            s_len == s@.len(),
            n_len == sub@.len(),
            n_len <= s_len,
            0 <= p <= s_len - n_len + 1,
            forall|k: int| 0 <= k < p ==> !text::matches_at(s@, sub@, k),
        decreases s_len - p,
    {
        let mut j: usize = 0;
        let mut ok: bool = true;
        while j < n_len
            invariant
                s_len == s@.len(),
                n_len == sub@.len(),
                0 <= p <= s_len - n_len,
                0 <= j <= n_len,
                ok ==> forall|k: int| 0 <= k < j ==> s@[p + k] == sub@[k],
                !ok ==> !text::matches_at(s@, sub@, p as int),
            decreases n_len - j,
        {
            if s.get_char(p + j) != sub.get_char(j) {
                assert(s@.subrange(p as int, p + n_len as int)[j as int] != sub@[j as int]);
                ok = false;
            }
            j = j + 1;
        }
        if ok {
            assert(s@.subrange(p as int, p + n_len as int) =~= sub@);
            assert(text::matches_at(s@, sub@, p as int));
            proof {
                lemma_first_sub_index_some(s@, sub@, p as int);
            }
            return Some(p);
        }
        if p == s_len - n_len {
            proof {
                assert forall|k: int| !text::matches_at(s@, sub@, k) by {
                    if 0 <= k && k + sub@.len() <= s@.len() {
                        assert(k <= p);
                    }
                }
                lemma_first_sub_index_none(s@, sub@);
            }
            return None;
        }
        p = p + 1;
    }
    proof {
        assert forall|k: int| !text::matches_at(s@, sub@, k) by {
            if 0 <= k && k + sub@.len() <= s@.len() {
                assert(k < p);
            }
        }
        lemma_first_sub_index_none(s@, sub@);
    }
    None
}

/// The decimal text a volume report carries: the characters between the
/// first opening bracket and the first `%]`, when that range is sound.
pub open spec fn volume_text_of(out: Seq<char>) -> Option<Seq<char>> {
    let vs = (if first_index_of(out, '[') == -1 {
        0int
    } else {
        first_index_of(out, '[')
    }) + 1;
    let ve = if first_sub_index_of(out, "%]"@) == -1 {
        1int
    } else {
        first_sub_index_of(out, "%]"@)
    };
    if vs <= ve && ve <= out.len() {
        Option::Some(out.subrange(vs, ve))
    } else {
        Option::None
    }
}

/// Decodes the volume percentage from the mixer's report on one channel.
/// Succeeds exactly when the report carries a bracketed percentage whose
/// digits form a decimal `i32`.
pub fn parse_volume(out: &str) -> (r: Ev3Result<i32>)
    ensures
        r is Ok <==> (volume_text_of(out@) matches Some(t) && numbers::valid_i32_text(t)),
        r matches Ok(v) ==> v == numbers::i32_of_text(volume_text_of(out@)->0),
        r matches Err(e) ==> e is InternalError,
{
    let len = out.unicode_len();
    let vs: usize = match text::find_char(out, '[') {
        Some(i) => {
            proof {
                lemma_first_index_some(out@, '[', i as int);
            }
            assert(i < len);
            i + 1
        },
        None => {
            proof {
                lemma_first_index_none(out@, '[');
            }
            1
        },
    };
    let ve: usize = match find_substr(out, "%]") {
        Some(i) => i,
        None => 1,
    };
    if vs <= ve && ve <= len {
        let digits = text::substring_to_string(out, vs, ve);
        match numbers::parse_i32(digits.as_str()) {
            Ok(v) => Ok(v),
            Err(msg) => Err(Ev3Error::InternalError { msg }),
        }
    } else {
        Err(Ev3Error::InternalError { msg: String::from_str("no volume in mixer output") })
    }
}

/// The arguments of a mixer invocation that sets `channel` to `volume`
/// percent.
pub open spec fn set_volume_args_text(volume: int, channel: Seq<char>) -> Seq<Seq<char>> {
    seq!["-q"@, "set"@, channel, numbers::i32_text(volume) + "%"@]
}

/// Builds the argument list that sets a channel's volume percentage.
pub fn set_volume_args(volume: i32, channel: &str) -> (r: Vec<String>)
    ensures
        r@.map_values(|s: String| s@) == set_volume_args_text(volume as int, channel@),
{
    let mut percent = numbers::format_i32(volume);
    percent.append("%");
    let mut args: Vec<String> = Vec::new();
    args.push(String::from_str("-q"));
    args.push(String::from_str("set"));
    args.push(channel.to_owned());
    args.push(percent);
    proof {
        assert(args@.map_values(|s: String| s@) =~= set_volume_args_text(
            volume as int,
            channel@,
        ));
    }
    args
}

} // verus!
