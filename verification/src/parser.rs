//! Reading what `ddcutil detect --brief` and `ddcutil getvcp 10` print.
use vstd::prelude::*;
use vstd::string::*;

use crate::monitor::{Monitor, MonitorView, monitors_view};
use crate::text::{
    chars_of, find_in, first_word, is_digit, lemma_split_found, lemma_split_len,
    lemma_split_not_found, matches_here, parse_u8, parse_u8_in, skip_ws, split_str, starts_with,
    trim, trim_bounds, word_end,
};

verus! {

/// The fields that one line of a display's report sets: the I2C bus and the
/// monitor name.
pub type LineFields = (Option<Seq<char>>, Option<Seq<char>>);

/// The name shown for a `Monitor: ` field `mon`: the model, which is the second
/// `:`-separated part once trimmed, or the first part where the model is empty.
pub open spec fn monitor_name(mon: Seq<char>) -> Seq<char> {
    let parts = split_str(mon, ":"@);
    let model = if parts.len() > 1 {
        trim(parts[1])
    } else {
        Seq::<char>::empty()
    };
    if model.len() == 0 {
        parts[0]
    } else {
        model
    }
}

/// What one line of a display's report sets, once trimmed.
pub open spec fn line_fields(line: Seq<char>) -> LineFields {
    let t = trim(line);
    if starts_with(t, "I2C bus: "@) {
        (Some(t.skip("I2C bus: "@.len() as int)), None)
    } else if starts_with(t, "Monitor: "@) {
        (None, Some(monitor_name(t.skip("Monitor: "@.len() as int))))
    } else {
        (None, None)
    }
}

/// The fields of `earlier`, overwritten by those that `later` sets.
pub open spec fn later_wins(earlier: LineFields, later: LineFields) -> LineFields {
    (
        if later.0 is Some {
            later.0
        } else {
            earlier.0
        },
        if later.1 is Some {
            later.1
        } else {
            earlier.1
        },
    )
}

/// The fields that a sequence of lines sets, a later line winning.
pub open spec fn scan_lines(lines: Seq<Seq<char>>) -> LineFields
    decreases lines.len(),
{
    if lines.len() == 0 {
        (None, None)
    } else {
        later_wins(line_fields(lines[0]), scan_lines(lines.drop_first()))
    }
}

/// What one `Display ` block of the report gives.
pub enum BlockOutcome {
    /// The block does not start with a digit, or names no monitor.
    Skipped,
    /// The block describes this monitor.
    Found(MonitorView),
    /// The display number does not read as a `u8`: the error message.
    BadNumber(Seq<char>),
}

/// The message for a display number that does not read.
pub open spec fn bad_number_message(first: Seq<char>) -> Seq<char> {
    "Failed to parse display number: "@ + first
}

/// What a block gives. The lines of a block are its pieces between line
/// feeds; each line is trimmed before use, so a carriage return before a line
/// feed, and an empty last piece, make no difference.
pub open spec fn block_outcome(block: Seq<char>) -> BlockOutcome {
    if block.len() == 0 || !is_digit(block[0]) {
        BlockOutcome::Skipped
    } else {
        let lines = split_str(block, "\n"@);
        let first = trim(lines[0]);
        match parse_u8(first) {
            None => BlockOutcome::BadNumber(bad_number_message(first)),
            Some(d) => {
                let fields = scan_lines(lines.drop_first());
                match fields.1 {
                    Some(n) => BlockOutcome::Found(
                        MonitorView { display_number: d, i2c_bus: fields.0, name: n },
                    ),
                    None => BlockOutcome::Skipped,
                }
            },
        }
    }
}

/// The monitors that a sequence of blocks gives, or the error of the first
/// block whose display number does not read.
pub open spec fn monitors_from_blocks(blocks: Seq<Seq<char>>) -> Result<
    Seq<MonitorView>,
    Seq<char>,
>
    decreases blocks.len(),
{
    if blocks.len() == 0 {
        Ok(Seq::empty())
    } else {
        match block_outcome(blocks[0]) {
            BlockOutcome::BadNumber(e) => Err(e),
            BlockOutcome::Skipped => monitors_from_blocks(blocks.drop_first()),
            BlockOutcome::Found(m) => match monitors_from_blocks(blocks.drop_first()) {
                Ok(ms) => Ok(seq![m] + ms),
                Err(e) => Err(e),
            },
        }
    }
}

/// `acc` put in front of the monitors of `r`.
pub open spec fn prepend_monitors(acc: Seq<MonitorView>, r: Result<Seq<MonitorView>, Seq<char>>) -> Result<
    Seq<MonitorView>,
    Seq<char>,
> {
    match r {
        Ok(ms) => Ok(acc + ms),
        Err(e) => Err(e),
    }
}

/// The message when the report names no monitor.
pub open spec fn no_monitors_message() -> Seq<char> {
    "No DDC/CI compatible monitors found."@
}

/// What `parse_detect_output` gives for the report `s`: the monitors of its
/// `Display ` blocks, in order; an error where a display number does not read
/// or where no monitor is found.
pub open spec fn detect_report(s: Seq<char>) -> Result<Seq<MonitorView>, Seq<char>> {
    match monitors_from_blocks(split_str(s, "Display "@)) {
        Ok(ms) => if ms.len() == 0 {
            Err(no_monitors_message())
        } else {
            Ok(ms)
        },
        Err(e) => Err(e),
    }
}

/// The string of the characters `v[a..b]`, which are those of `text`.
fn substring(text: &str, v: &Vec<char>, a: usize, b: usize) -> (s: String)
    requires
        v@ == text@,
        a <= b <= v@.len(),
    ensures
        s@ == v@.subrange(a as int, b as int),
{
    String::from_str(text.substring_char(a, b))
}

/// The name shown for the `Monitor: ` field `v[ms..me]`.
fn monitor_name_in(text: &str, v: &Vec<char>, ms: usize, me: usize) -> (name: String)
    requires
        v@ == text@,
        ms <= me <= v@.len(),
    ensures
        name@ == monitor_name(v@.subrange(ms as int, me as int)),
{
    let colon = chars_of(":");
    proof {
        reveal_strlit(":");
    }
    let ghost mon = v@.subrange(ms as int, me as int);
    match find_in(v, ms, me, &colon) {
        None => {
            proof {
                lemma_split_not_found(mon, ":"@);
            }
            substring(text, v, ms, me)
        },
        Some(k1) => {
            let ghost k = (k1 - ms) as int;
            let after = k1 + colon.len();
            proof {
                lemma_split_found(mon, ":"@, k);
                assert(mon.take(k) =~= v@.subrange(ms as int, k1 as int));
                assert(mon.skip(k + 1) =~= v@.subrange(after as int, me as int));
            }
            let ghost rest = v@.subrange(after as int, me as int);
            let p1_end = match find_in(v, after, me, &colon) {
                Some(k2) => {
                    proof {
                        lemma_split_found(rest, ":"@, (k2 - after) as int);
                        assert(rest.take((k2 - after) as int) =~= v@.subrange(after as int, k2 as int));
                    }
                    k2
                },
                None => {
                    proof {
                        lemma_split_not_found(rest, ":"@);
                        assert(rest =~= v@.subrange(after as int, me as int));
                    }
                    me
                },
            };
            proof {
                let parts = split_str(mon, ":"@);
                assert(parts[1] == parts.drop_first()[0]);
            }
            let (a, b) = trim_bounds(v, after, p1_end);
            if a == b {
                substring(text, v, ms, k1)
            } else {
                substring(text, v, a, b)
            }
        },
    }
}


/// The fields as owned strings, by their contents.
pub open spec fn fields_view(bus: Option<String>, name: Option<String>) -> LineFields {
    (
        match bus {
            Some(b) => Some(b@),
            None => None,
        },
        match name {
            Some(n) => Some(n@),
            None => None,
        },
    )
}

/// What the line `v[ls..le]` sets.
fn line_fields_in(text: &str, v: &Vec<char>, ls: usize, le: usize) -> (r: (
    Option<String>,
    Option<String>,
))
    requires
        v@ == text@,
        ls <= le <= v@.len(),
    ensures
        fields_view(r.0, r.1) == line_fields(v@.subrange(ls as int, le as int)),
{
    let bus_p = chars_of("I2C bus: ");
    let mon_p = chars_of("Monitor: ");
    let (a, b) = trim_bounds(v, ls, le);
    let ghost t = v@.subrange(a as int, b as int);
    assert(t == trim(v@.subrange(ls as int, le as int)));
    if matches_here(v, a, b, &bus_p) {
        let bus = substring(text, v, a + bus_p.len(), b);
        assert(t.skip(bus_p@.len() as int) =~= v@.subrange(a + bus_p@.len(), b as int));
        (Some(bus), None)
    } else if matches_here(v, a, b, &mon_p) {
        assert(t.skip(mon_p@.len() as int) =~= v@.subrange(a + mon_p@.len(), b as int));
        let name = monitor_name_in(text, v, a + mon_p.len(), b);
        (None, Some(name))
    } else {
        (None, None)
    }
}

/// What the block `v[bs..be]` gives: `Ok(None)` where it is skipped.
fn block_monitor(text: &str, v: &Vec<char>, bs: usize, be: usize) -> (r: Result<
    Option<Monitor>,
    String,
>)
    requires
        v@ == text@,
        bs <= be <= v@.len(),
    ensures
        match block_outcome(v@.subrange(bs as int, be as int)) {
            BlockOutcome::Skipped => r == Ok::<Option<Monitor>, String>(None),
            BlockOutcome::Found(m) => r matches Ok(Some(x)) && x@ == m,
            BlockOutcome::BadNumber(e) => r matches Err(x) && x@ == e,
        },
{
    let ghost block = v@.subrange(bs as int, be as int);
    if bs == be || !('0' <= v[bs] && v[bs] <= '9') {
        return Ok(None);
    }
    let nl = chars_of("\n");
    proof {
        reveal_strlit("\n");
    }
    let ghost lines = split_str(block, "\n"@);
    proof {
        lemma_split_len(block, "\n"@);
    }
    let (l0_end, mut next) = match find_in(v, bs, be, &nl) {
        Some(k) => {
            proof {
                lemma_split_found(block, "\n"@, (k - bs) as int);
                assert(block.take((k - bs) as int) =~= v@.subrange(bs as int, k as int));
                assert(block.skip((k - bs) + 1) =~= v@.subrange(k + 1, be as int));
            }
            (k, Some(k + 1))
        },
        None => {
            proof {
                lemma_split_not_found(block, "\n"@);
            }
            (be, None)
        },
    };
    let (a, b) = trim_bounds(v, bs, l0_end);
    let d = match parse_u8_in(v, a, b) {
        Some(d) => d,
        None => {
            let mut e = String::from_str("Failed to parse display number: ");
            e.append(text.substring_char(a, b));
            return Err(e);
        },
    };
    let mut bus: Option<String> = None;
    let mut name: Option<String> = None;
    loop
        invariant
            v@ == text@,
            bs <= be <= v@.len(),
            block == v@.subrange(bs as int, be as int),
            nl@ == "\n"@,
            "\n"@.len() == 1,
            lines == split_str(block, "\n"@),
            lines.len() >= 1,
            match next {
                Some(p) => bs <= p <= be && scan_lines(lines.drop_first()) == later_wins(
                    fields_view(bus, name),
                    scan_lines(split_str(v@.subrange(p as int, be as int), "\n"@)),
                ),
                None => scan_lines(lines.drop_first()) == fields_view(bus, name),
            },
        ensures
            scan_lines(lines.drop_first()) == fields_view(bus, name),
        decreases
            match next {
                Some(p) => be - p + 1,
                None => 0,
            },
    {
        let p = match next {
            Some(p) => p,
            None => break,
        };
        let ghost rest = v@.subrange(p as int, be as int);
        let (le, after) = match find_in(v, p, be, &nl) {
            Some(k) => {
                proof {
                    lemma_split_found(rest, "\n"@, (k - p) as int);
                    assert(rest.take((k - p) as int) =~= v@.subrange(p as int, k as int));
                    assert(rest.skip((k - p) + 1) =~= v@.subrange(k + 1, be as int));
                }
                (k, Some(k + 1))
            },
            None => {
                proof {
                    lemma_split_not_found(rest, "\n"@);
                    assert(scan_lines(Seq::<Seq<char>>::empty()) == (
                        None::<Seq<char>>,
                        None::<Seq<char>>,
                    ));
                }
                (be, None)
            },
        };
        let (lb, ln) = line_fields_in(text, v, p, le);
        proof {
            let pieces = split_str(rest, "\n"@);
            assert(pieces[0] == v@.subrange(p as int, le as int));
        }
        if lb.is_some() {
            bus = lb;
        }
        if ln.is_some() {
            name = ln;
        }
        next = after;
    }
    proof {
        assert(lines[0] == v@.subrange(bs as int, l0_end as int));
    }
    match name {
        Some(n) => Ok(Some(Monitor { display_number: d, i2c_bus: bus, name: n })),
        None => Ok(None),
    }
}

/// Reads the report of `ddcutil detect --brief`: each block that starts with
/// `Display ` and a digit gives its display number, the I2C bus and the
/// monitor name; a block without a `Monitor: ` line is left out.
pub fn parse_detect_output(output: &str) -> (r: Result<Vec<Monitor>, String>)
    ensures
        match detect_report(output@) {
            Ok(ms) => r matches Ok(v) && monitors_view(v@) == ms,
            Err(e) => r matches Err(x) && x@ == e,
        },
        r matches Ok(v) ==> v@.len() > 0,
{
    let v = chars_of(output);
    let n = v.len();
    let sep = chars_of("Display ");
    proof {
        reveal_strlit("Display ");
        assert(v@.subrange(0, n as int) =~= output@);
    }
    let ghost all = monitors_from_blocks(split_str(output@, "Display "@));
    let mut monitors: Vec<Monitor> = Vec::new();
    let mut pos: usize = 0;
    loop
        invariant_except_break
            all == prepend_monitors(
                monitors_view(monitors@),
                monitors_from_blocks(split_str(v@.subrange(pos as int, n as int), "Display "@)),
            ),
        invariant
            v@ == output@,
            n == v@.len(),
            sep@ == "Display "@,
            "Display "@.len() == 8,
            pos <= n,
            all == monitors_from_blocks(split_str(output@, "Display "@)),
        ensures
            all == Ok::<Seq<MonitorView>, Seq<char>>(monitors_view(monitors@)),
        decreases n - pos,
    {
        let ghost rest = v@.subrange(pos as int, n as int);
        let (be, next) = match find_in(&v, pos, n, &sep) {
            Some(k) => {
                proof {
                    lemma_split_found(rest, "Display "@, (k - pos) as int);
                    assert(rest.take((k - pos) as int) =~= v@.subrange(pos as int, k as int));
                    assert(rest.skip((k - pos) + 8) =~= v@.subrange(k + 8, n as int));
                }
                (k, Some(k + sep.len()))
            },
            None => {
                proof {
                    lemma_split_not_found(rest, "Display "@);
                }
                (n, None)
            },
        };
        let ghost block = v@.subrange(pos as int, be as int);
        let ghost blocks = split_str(rest, "Display "@);
        proof {
            assert(blocks[0] == block);
        }
        let ghost before = monitors_view(monitors@);
        match block_monitor(output, &v, pos, be) {
            Err(e) => {
                return Err(e);
            },
            Ok(Some(m)) => {
                monitors.push(m);
                proof {
                    assert(monitors_view(monitors@) =~= before.push(m@));
                    let later = monitors_from_blocks(blocks.drop_first());
                    if let Ok(ms) = later {
                        assert(before + (seq![m@] + ms) =~= before.push(m@) + ms);
                    }
                }
            },
            Ok(None) => {},
        }
        match next {
            Some(np) => {
                pos = np;
            },
            None => {
                proof {
                    assert(monitors_from_blocks(Seq::<Seq<char>>::empty()) == Ok::<
                        Seq<MonitorView>,
                        Seq<char>,
                    >(Seq::empty()));
                    assert(monitors_view(monitors@) + Seq::<MonitorView>::empty() =~= monitors_view(monitors@));
                }
                break;
            },
        }
    }
    if monitors.len() == 0 {
        return Err(String::from_str("No DDC/CI compatible monitors found."));
    }
    Ok(monitors)
}


/// The text between the first and the second occurrence of `p` in `s`, or
/// after the first where there is no second (`str::split(p).nth(1)`).
pub open spec fn second_piece(s: Seq<char>, p: Seq<char>) -> Option<Seq<char>> {
    let parts = split_str(s, p);
    if parts.len() >= 2 {
        Some(parts[1])
    } else {
        None
    }
}

/// The current brightness that a `getvcp` report gives: the text after
/// `current value = `, up to the next `,`, trimmed, read as a `u8`.
pub open spec fn current_value(s: Seq<char>) -> Option<u8> {
    match second_piece(s, "current value = "@) {
        Some(t) => parse_u8(trim(split_str(t, ","@)[0])),
        None => None,
    }
}

/// The maximum brightness that a `getvcp` report gives: the first word after
/// `max value = `, read as a `u8`.
pub open spec fn max_value(s: Seq<char>) -> Option<u8> {
    match second_piece(s, "max value = "@) {
        Some(t) => match first_word(t) {
            Some(w) => parse_u8(w),
            None => None,
        },
        None => None,
    }
}

/// The message when the current brightness does not read from `s`.
pub open spec fn current_error_message(s: Seq<char>) -> Seq<char> {
    "Failed to parse current brightness from:\n"@ + s
}

/// The message when the maximum brightness does not read from `s`.
pub open spec fn max_error_message(s: Seq<char>) -> Seq<char> {
    "Failed to parse max brightness from:\n"@ + s
}

/// What `parse_brightness_output` gives for the report `s`.
pub open spec fn brightness_report(s: Seq<char>) -> Result<(u8, u8), Seq<char>> {
    match current_value(s) {
        None => Err(current_error_message(s)),
        Some(c) => match max_value(s) {
            None => Err(max_error_message(s)),
            Some(m) => Ok((c, m)),
        },
    }
}

/// The bounds in `v` of the second piece of `v` cut at `p`.
fn second_piece_in(v: &Vec<char>, p: &Vec<char>) -> (r: Option<(usize, usize)>)
    requires
        p@.len() > 0,
    ensures
        match second_piece(v@, p@) {
            Some(t) => r matches Some((a, b)) && a <= b <= v@.len() && v@.subrange(
                a as int,
                b as int,
            ) == t,
            None => r is None,
        },
{
    let n = v.len();
    assert(v@.subrange(0, n as int) =~= v@);
    match find_in(v, 0, n, p) {
        None => {
            proof {
                lemma_split_not_found(v@, p@);
            }
            None
        },
        Some(k1) => {
            let after = k1 + p.len();
            let ghost rest = v@.subrange(after as int, n as int);
            proof {
                lemma_split_found(v@, p@, k1 as int);
                assert(v@.skip(after as int) =~= rest);
            }
            let end = match find_in(v, after, n, p) {
                Some(k2) => {
                    proof {
                        lemma_split_found(rest, p@, (k2 - after) as int);
                        assert(rest.take((k2 - after) as int) =~= v@.subrange(after as int, k2 as int));
                    }
                    k2
                },
                None => {
                    proof {
                        lemma_split_not_found(rest, p@);
                    }
                    n
                },
            };
            proof {
                let parts = split_str(v@, p@);
                assert(parts[1] == parts.drop_first()[0]);
            }
            Some((after, end))
        },
    }
}

/// Where the first piece of `v[a..b]` cut at `p` ends.
fn first_piece_end(v: &Vec<char>, a: usize, b: usize, p: &Vec<char>) -> (e: usize)
    requires
        a <= b <= v@.len(),
        p@.len() > 0,
    ensures
        a <= e <= b,
        v@.subrange(a as int, e as int) == split_str(v@.subrange(a as int, b as int), p@)[0],
{
    let ghost t = v@.subrange(a as int, b as int);
    match find_in(v, a, b, p) {
        Some(k) => {
            proof {
                lemma_split_found(t, p@, (k - a) as int);
                assert(t.take((k - a) as int) =~= v@.subrange(a as int, k as int));
            }
            k
        },
        None => {
            proof {
                lemma_split_not_found(t, p@);
            }
            b
        },
    }
}

/// The current brightness in the report `v`.
fn current_value_in(v: &Vec<char>) -> (r: Option<u8>)
    ensures
        r == current_value(v@),
{
    let pat = chars_of("current value = ");
    let comma = chars_of(",");
    proof {
        reveal_strlit("current value = ");
        reveal_strlit(",");
    }
    match second_piece_in(v, &pat) {
        None => None,
        Some((a, b)) => {
            let e = first_piece_end(v, a, b, &comma);
            let (ta, tb) = trim_bounds(v, a, e);
            parse_u8_in(v, ta, tb)
        },
    }
}

/// The maximum brightness in the report `v`.
fn max_value_in(v: &Vec<char>) -> (r: Option<u8>)
    ensures
        r == max_value(v@),
{
    let pat = chars_of("max value = ");
    proof {
        reveal_strlit("max value = ");
    }
    match second_piece_in(v, &pat) {
        None => None,
        Some((a, b)) => {
            let w = skip_ws(v, a, b);
            if w == b {
                return None;
            }
            let e = word_end(v, w, b);
            parse_u8_in(v, w, e)
        },
    }
}

/// Reads the report of `ddcutil getvcp 10`: the current and the maximum
/// brightness, or the message that names what did not read.
pub fn parse_brightness_output(output: &str) -> (r: Result<(u8, u8), String>)
    ensures
        match brightness_report(output@) {
            Ok(pair) => r == Ok::<(u8, u8), String>(pair),
            Err(e) => r matches Err(x) && x@ == e,
        },
{
    let v = chars_of(output);
    let current = match current_value_in(&v) {
        Some(c) => c,
        None => {
            let mut e = String::from_str("Failed to parse current brightness from:\n");
            e.append(output);
            return Err(e);
        },
    };
    let max = match max_value_in(&v) {
        Some(m) => m,
        None => {
            let mut e = String::from_str("Failed to parse max brightness from:\n");
            e.append(output);
            return Err(e);
        },
    };
    Ok((current, max))
}


} // verus!
