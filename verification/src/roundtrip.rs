//! Reports written the way `ddcutil` prints them read back as what they
//! were printed from.
use vstd::prelude::*;
use vstd::string::*;

use crate::brightness::{read_outcome_spec, set_outcome_spec};
use crate::detect::detect_outcome_spec;
use crate::monitor::MonitorView;
use crate::parser::{
    BlockOutcome, block_outcome, brightness_report, current_value, detect_report, line_fields,
    max_value, monitor_name, monitors_from_blocks, no_monitors_message, scan_lines, second_piece,
};
use crate::text::{
    decimal, find, first_word, is_ws, lacks, lemma_decimal_chars, lemma_find_after_lacking,
    lemma_find_first, lemma_find_from, lemma_find_lacking, lemma_find_none, lemma_find_none_prefix, lemma_mismatch,
    lemma_no_match_in_field, lemma_parse_decimal, lemma_split_found, lemma_split_not_found,
    lemma_take_until_ws, lemma_trim_start_spaces, lossy_utf8, matches_at, parse_u8, spaces, split_str, trim,
    trim_end, trim_start,
};

verus! {

/// What `ddcutil detect --brief` prints of one monitor.
pub struct PrintedMonitor {
    pub display: u8,
    pub bus: Seq<char>,
    pub manufacturer: Seq<char>,
    pub model: Seq<char>,
    pub serial: Seq<char>,
}

/// The lines that follow `Display ` for monitor `m`.
pub open spec fn display_body(m: PrintedMonitor) -> Seq<char> {
    decimal(m.display as nat) + "\n"@ + "   I2C bus: "@ + m.bus + "\n"@ + "   Monitor: "@
        + m.manufacturer + ":"@ + m.model + ":"@ + m.serial + "\n"@
}

/// The report of `ddcutil detect --brief` for the monitors `ms`.
pub open spec fn detect_text(ms: Seq<PrintedMonitor>) -> Seq<char>
    decreases ms.len(),
{
    if ms.len() == 0 {
        Seq::empty()
    } else {
        "Display "@ + display_body(ms[0]) + detect_text(ms.drop_first())
    }
}

/// Whether a field holds no line feed and no `Display `.
pub open spec fn plain(f: Seq<char>) -> bool {
    lacks(f, '\n') && find(f, "Display "@) is None
}

/// Whether the fields of `m` print as fields: on one line, without
/// `Display `, the bus and the model not empty, no `:` in the manufacturer
/// and the model, and no whitespace where a trim would remove it.
pub open spec fn printable(m: PrintedMonitor) -> bool {
    &&& plain(m.bus)
    &&& m.bus.len() > 0
    &&& !is_ws(m.bus.last())
    &&& plain(m.manufacturer)
    &&& lacks(m.manufacturer, ':')
    &&& plain(m.model)
    &&& lacks(m.model, ':')
    &&& m.model.len() > 0
    &&& !is_ws(m.model[0])
    &&& !is_ws(m.model.last())
    &&& plain(m.serial)
    &&& (m.serial.len() == 0 || !is_ws(m.serial.last()))
}

/// The monitor that the window shows for `m`: its display, its bus and its
/// model.
pub open spec fn shown(m: PrintedMonitor) -> MonitorView {
    MonitorView { display_number: m.display, i2c_bus: Some(m.bus), name: m.model }
}

/// The literals of a detection report, by their characters.
proof fn lemma_detect_literals()
    ensures
        "Display "@ =~= seq!['D', 'i', 's', 'p', 'l', 'a', 'y', ' '],
        "\n"@ =~= seq!['\n'],
        ":"@ =~= seq![':'],
        "   I2C bus: "@ =~= seq![' ', ' ', ' ', 'I', '2', 'C', ' ', 'b', 'u', 's', ':', ' '],
        "I2C bus: "@ =~= seq!['I', '2', 'C', ' ', 'b', 'u', 's', ':', ' '],
        "   Monitor: "@ =~= seq![' ', ' ', ' ', 'M', 'o', 'n', 'i', 't', 'o', 'r', ':', ' '],
        "Monitor: "@ =~= seq!['M', 'o', 'n', 'i', 't', 'o', 'r', ':', ' '],
{
    reveal_strlit("Display ");
    reveal_strlit("\n");
    reveal_strlit(":");
    reveal_strlit("   I2C bus: ");
    reveal_strlit("I2C bus: ");
    reveal_strlit("   Monitor: ");
    reveal_strlit("Monitor: ");
}

/// A trimmed text stays as it is.
proof fn lemma_trim_keeps(t: Seq<char>)
    requires
        t.len() > 0,
        !is_ws(t[0]),
        !is_ws(t.last()),
    ensures
        trim(t) == t,
{
}

/// The `Monitor: ` field of `m` names the model.
proof fn lemma_monitor_name(m: PrintedMonitor)
    requires
        printable(m),
    ensures
        monitor_name(m.manufacturer + ":"@ + m.model + ":"@ + m.serial) == m.model,
{
    lemma_detect_literals();
    let c = ":"@;
    let mon = m.manufacturer + c + m.model + c + m.serial;
    let k1 = m.manufacturer.len() as int;
    assert(mon.subrange(k1, k1 + 1) =~= c);
    assert(mon.take(k1) =~= m.manufacturer);
    lemma_find_after_lacking(mon, c, k1);
    lemma_split_found(mon, c, k1);
    let rest = m.model + c + m.serial;
    assert(mon.skip(k1 + 1) =~= rest);
    let k2 = m.model.len() as int;
    assert(rest.subrange(k2, k2 + 1) =~= c);
    assert(rest.take(k2) =~= m.model);
    lemma_find_after_lacking(rest, c, k2);
    lemma_split_found(rest, c, k2);
    let parts = split_str(mon, c);
    assert(parts[1] == parts.drop_first()[0]);
    lemma_trim_keeps(m.model);
}

/// What the lines of the block of `m` set.
proof fn lemma_body_fields(m: PrintedMonitor)
    requires
        printable(m),
    ensures
        line_fields("   I2C bus: "@ + m.bus) == (Some(m.bus), None::<Seq<char>>),
        line_fields("   Monitor: "@ + m.manufacturer + ":"@ + m.model + ":"@ + m.serial) == (
            None::<Seq<char>>,
            Some(m.model),
        ),
        line_fields(Seq::empty()) == (None::<Seq<char>>, None::<Seq<char>>),
{
    lemma_detect_literals();
    let bus_p = "I2C bus: "@;
    let mon_p = "Monitor: "@;
    let mon = m.manufacturer + ":"@ + m.model + ":"@ + m.serial;
    // the bus line
    let t1 = bus_p + m.bus;
    assert("   I2C bus: "@ + m.bus =~= spaces(3) + t1);
    lemma_trim_start_spaces(3, t1);
    assert(trim_end(t1) == t1);
    assert(t1.take(9) =~= bus_p);
    assert(t1.skip(9) =~= m.bus);
    // the monitor line
    let t2 = mon_p + mon;
    assert("   Monitor: "@ + m.manufacturer + ":"@ + m.model + ":"@ + m.serial =~= spaces(3) + t2);
    lemma_trim_start_spaces(3, t2);
    assert(!is_ws(t2.last()));
    assert(trim_end(t2) == t2);
    lemma_mismatch(t2, bus_p, 0, 0);
    assert(t2.take(9) =~= mon_p);
    assert(t2.skip(9) =~= mon);
    lemma_monitor_name(m);
    // the empty line
    assert(trim_start(Seq::<char>::empty()) == Seq::<char>::empty());
    assert(trim_end(Seq::<char>::empty()) == Seq::<char>::empty());
}

/// The first line of the block of `m` is its display number.
proof fn lemma_first_line(m: PrintedMonitor)
    ensures
        parse_u8(trim(decimal(m.display as nat))) == Some(m.display),
{
    lemma_decimal_chars(m.display as nat);
    lemma_parse_decimal(m.display);
    lemma_trim_keeps(decimal(m.display as nat));
}

/// `t` cut at line feeds, where its first line `l` holds none.
proof fn lemma_split_line(t: Seq<char>, l: Seq<char>, r: Seq<char>)
    requires
        t == l + "\n"@ + r,
        lacks(l, '\n'),
        "\n"@ =~= seq!['\n'],
    ensures
        split_str(t, "\n"@) == seq![l] + split_str(r, "\n"@),
{
    let nl = "\n"@;
    let k = l.len() as int;
    assert(t.subrange(k, k + 1) =~= nl);
    assert(t.take(k) =~= l);
    lemma_find_after_lacking(t, nl, k);
    lemma_split_found(t, nl, k);
    assert(t.skip(k + 1) =~= r);
    let parts = split_str(t, nl);
    assert(parts =~= seq![parts[0]] + parts.drop_first());
}

/// The lines of the block of `m`.
proof fn lemma_body_lines(m: PrintedMonitor)
    requires
        printable(m),
    ensures
        split_str(display_body(m), "\n"@) == seq![
            decimal(m.display as nat),
            "   I2C bus: "@ + m.bus,
            "   Monitor: "@ + m.manufacturer + ":"@ + m.model + ":"@ + m.serial,
            Seq::<char>::empty(),
        ],
{
    lemma_detect_literals();
    lemma_decimal_chars(m.display as nat);
    let nl = "\n"@;
    let d = decimal(m.display as nat);
    let l1 = "   I2C bus: "@ + m.bus;
    let l2 = "   Monitor: "@ + m.manufacturer + ":"@ + m.model + ":"@ + m.serial;
    let e = Seq::<char>::empty();
    let r2 = l2 + nl;
    let r1 = l1 + nl + r2;
    assert(display_body(m) =~= d + nl + r1);
    assert(lacks(l1, '\n'));
    assert(lacks(l2, '\n'));
    assert(r1 =~= l1 + nl + r2);
    assert(r2 =~= l2 + nl + e);
    lemma_split_line(display_body(m), d, r1);
    lemma_split_line(r1, l1, r2);
    lemma_split_line(r2, l2, e);
    lemma_find_lacking(e, nl);
    lemma_split_not_found(e, nl);
    assert(seq![d] + (seq![l1] + (seq![l2] + seq![e])) =~= seq![d, l1, l2, e]);
}

/// The block of a printable monitor gives that monitor.
pub proof fn lemma_body_outcome(m: PrintedMonitor)
    requires
        printable(m),
    ensures
        block_outcome(display_body(m)) == BlockOutcome::Found(shown(m)),
{
    lemma_decimal_chars(m.display as nat);
    let d = decimal(m.display as nat);
    let l1 = "   I2C bus: "@ + m.bus;
    let l2 = "   Monitor: "@ + m.manufacturer + ":"@ + m.model + ":"@ + m.serial;
    let e = Seq::<char>::empty();
    let body = display_body(m);
    assert(body[0] == d[0]);
    lemma_body_lines(m);
    let lines = seq![d, l1, l2, e];
    assert(lines[0] == d);
    lemma_first_line(m);
    lemma_body_fields(m);
    let rest = lines.drop_first();
    assert(rest =~= seq![l1, l2, e]);
    assert(rest.drop_first() =~= seq![l2, e]);
    assert(seq![e].drop_first() =~= Seq::<Seq<char>>::empty());
    assert(scan_lines(Seq::<Seq<char>>::empty()) == (None::<Seq<char>>, None::<Seq<char>>));
    assert(seq![l2, e].drop_first() =~= seq![e]);
    assert(scan_lines(seq![e]) == (None::<Seq<char>>, None::<Seq<char>>));
    assert(scan_lines(seq![l2, e]) == (None::<Seq<char>>, Some(m.model)));
    assert(scan_lines(rest) == (Some(m.bus), Some(m.model)));
}

/// `Display ` does not occur in the block of a printable monitor.
pub proof fn lemma_body_has_no_separator(m: PrintedMonitor)
    requires
        printable(m),
    ensures
        find(display_body(m), "Display "@) is None,
{
    lemma_detect_literals();
    lemma_decimal_chars(m.display as nat);
    let p = "Display "@;
    let d = decimal(m.display as nat);
    let b = display_body(m);
    let lb = m.bus.len() as int;
    let lf = m.manufacturer.len() as int;
    let lm = m.model.len() as int;
    let ls = m.serial.len() as int;
    let ob = d.len() as int + 13;
    let of = ob + lb + 13;
    let om = of + lf + 1;
    let os = om + lm + 1;
    assert(b.len() == os + ls + 1);
    assert(b.subrange(ob, ob + lb) =~= m.bus);
    assert(b.subrange(of, of + lf) =~= m.manufacturer);
    assert(b.subrange(om, om + lm) =~= m.model);
    assert(b.subrange(os, os + ls) =~= m.serial);
    assert(b[ob + lb] == '\n');
    assert(b[of + lf] == ':');
    assert(b[om + lm] == ':');
    assert(b[os + ls] == '\n');
    lemma_no_match_in_field(b, p, ob, lb);
    lemma_no_match_in_field(b, p, of, lf);
    lemma_no_match_in_field(b, p, om, lm);
    lemma_no_match_in_field(b, p, os, ls);
    assert forall|j: int| 0 <= j implies !matches_at(b, p, j) by {
        if j < b.len() && !(ob <= j < ob + lb) && !(of <= j < of + lf)
            && !(om <= j < om + lm) && !(os <= j < os + ls) {
            assert(b[j] != 'D');
            lemma_mismatch(b, p, j, 0);
        }
    }
    lemma_find_none(b, p);
}

/// The blocks of the monitors `ms`.
pub open spec fn display_bodies(ms: Seq<PrintedMonitor>) -> Seq<Seq<char>> {
    ms.map_values(|m: PrintedMonitor| display_body(m))
}

/// A text that starts with `Display ` is cut there first.
proof fn lemma_split_at_start(t: Seq<char>)
    requires
        "Display "@ =~= seq!['D', 'i', 's', 'p', 'l', 'a', 'y', ' '],
        t.len() >= 8,
        t.take(8) == "Display "@,
    ensures
        split_str(t, "Display "@) == seq![Seq::<char>::empty()] + split_str(t.skip(8), "Display "@),
{
    let p = "Display "@;
    assert(t.subrange(0, 8) =~= p);
    lemma_find_first(t, p, 0);
    lemma_split_found(t, p, 0);
    assert(t.take(0) =~= Seq::<char>::empty());
    let parts = split_str(t, p);
    assert(parts =~= seq![parts[0]] + parts.drop_first());
}

/// A block without `Display ` that ends with a line feed is cut off whole
/// from what follows it, where that is empty or starts with `Display `.
proof fn lemma_split_after_body(b: Seq<char>, r: Seq<char>)
    requires
        "Display "@ =~= seq!['D', 'i', 's', 'p', 'l', 'a', 'y', ' '],
        find(b, "Display "@) is None,
        b.len() > 0,
        b.last() == '\n',
        r.len() == 0 || (r.len() >= 8 && r.take(8) == "Display "@),
    ensures
        r.len() == 0 ==> split_str(b + r, "Display "@) == seq![b],
        r.len() > 0 ==> split_str(b + r, "Display "@) == seq![b] + split_str(
            r,
            "Display "@,
        ).drop_first(),
{
    let p = "Display "@;
    if r.len() == 0 {
        assert(b + r =~= b);
        lemma_split_not_found(b, p);
    } else {
        let bl = b.len() as int;
        let br = b + r;
        assert(br.subrange(bl, bl + 8) =~= p);
        lemma_find_none_prefix(b, p, bl - 1);
        assert(br.subrange(0, bl - 1) =~= b.take(bl - 1));
        assert(br[bl - 1] == '\n');
        lemma_no_match_in_field(br, p, 0, bl - 1);
        lemma_mismatch(br, p, bl - 1, 0);
        lemma_find_first(br, p, bl);
        lemma_split_found(br, p, bl);
        assert(br.take(bl) =~= b);
        assert(br.skip(bl + 8) =~= r.skip(8));
        lemma_split_at_start(r);
        let parts = split_str(br, p);
        assert(parts =~= seq![parts[0]] + parts.drop_first());
        assert(split_str(r.skip(8), p) =~= split_str(r, p).drop_first());
    }
}

/// A report cuts at `Display ` into an empty text, then the blocks of its
/// monitors.
pub proof fn lemma_detect_text_blocks(ms: Seq<PrintedMonitor>)
    requires
        forall|i: int| 0 <= i < ms.len() ==> printable(#[trigger] ms[i]),
    ensures
        split_str(detect_text(ms), "Display "@) == seq![Seq::<char>::empty()] + display_bodies(ms),
    decreases ms.len(),
{
    lemma_detect_literals();
    let p = "Display "@;
    let e = Seq::<char>::empty();
    if ms.len() == 0 {
        lemma_find_lacking(e, p);
        lemma_split_not_found(e, p);
        assert(display_bodies(ms) =~= Seq::<Seq<char>>::empty());
        assert(seq![e] + Seq::<Seq<char>>::empty() =~= seq![e]);
    } else {
        let m = ms[0];
        let rest = ms.drop_first();
        let b = display_body(m);
        let r = detect_text(rest);
        let t = detect_text(ms);
        assert(forall|i: int| 0 <= i < rest.len() ==> #[trigger] rest[i] == ms[i + 1]);
        lemma_detect_text_blocks(rest);
        lemma_body_has_no_separator(m);
        assert(t =~= p + (b + r));
        assert(t.take(8) =~= p);
        assert(t.skip(8) =~= b + r);
        lemma_split_at_start(t);
        assert(b.last() == '\n');
        if rest.len() > 0 {
            assert(r =~= p + (display_body(rest[0]) + detect_text(rest.drop_first())));
            assert(r.take(8) =~= p);
        } else {
            assert(r =~= e);
        }
        lemma_split_after_body(b, r);
        let bodies = display_bodies(rest);
        assert((seq![e] + bodies).drop_first() =~= bodies);
        assert(rest.len() == 0 ==> bodies =~= Seq::<Seq<char>>::empty());
        assert(seq![b] + Seq::<Seq<char>>::empty() =~= seq![b]);
        assert(display_bodies(ms) =~= seq![b] + bodies);
    }
}

/// The monitors that the window shows for `ms`.
pub open spec fn shown_all(ms: Seq<PrintedMonitor>) -> Seq<MonitorView> {
    ms.map_values(|m: PrintedMonitor| shown(m))
}

/// The blocks of printable monitors give those monitors.
proof fn lemma_monitors_from_bodies(ms: Seq<PrintedMonitor>)
    requires
        forall|i: int| 0 <= i < ms.len() ==> printable(#[trigger] ms[i]),
    ensures
        monitors_from_blocks(display_bodies(ms)) == Ok::<Seq<MonitorView>, Seq<char>>(
            shown_all(ms),
        ),
    decreases ms.len(),
{
    if ms.len() == 0 {
        assert(display_bodies(ms) =~= Seq::<Seq<char>>::empty());
        assert(shown_all(ms) =~= Seq::<MonitorView>::empty());
    } else {
        let rest = ms.drop_first();
        assert(forall|i: int| 0 <= i < rest.len() ==> #[trigger] rest[i] == ms[i + 1]);
        lemma_monitors_from_bodies(rest);
        lemma_body_outcome(ms[0]);
        let bodies = display_bodies(ms);
        assert(bodies[0] == display_body(ms[0]));
        assert(bodies.drop_first() =~= display_bodies(rest));
        assert(shown_all(ms) =~= seq![shown(ms[0])] + shown_all(rest));
    }
}

/// Law: the report of `ddcutil detect --brief` for printable monitors reads
/// back as exactly those monitors, in order, each with its display number,
/// its I2C bus and its model as name; a report of no monitor is refused.
pub proof fn law_detect_report_reads_back(ms: Seq<PrintedMonitor>)
    requires
        forall|i: int| 0 <= i < ms.len() ==> printable(#[trigger] ms[i]),
    ensures
        ms.len() == 0 ==> detect_report(detect_text(ms)) == Err::<Seq<MonitorView>, Seq<char>>(
            no_monitors_message(),
        ),
        ms.len() > 0 ==> detect_report(detect_text(ms)) == Ok::<Seq<MonitorView>, Seq<char>>(
            shown_all(ms),
        ),
{
    lemma_detect_text_blocks(ms);
    lemma_monitors_from_bodies(ms);
    let e = Seq::<char>::empty();
    let blocks = seq![e] + display_bodies(ms);
    assert(blocks[0] == e);
    assert(block_outcome(e) == BlockOutcome::Skipped);
    assert(blocks.drop_first() =~= display_bodies(ms));
    assert(shown_all(ms).len() == ms.len());
}

/// Cutting `a + b` at `Display `, where `a` is empty or ends with a line
/// feed and `b` starts with `Display `, gives the pieces of `a`, then those
/// of `b` after its first, empty, one.
proof fn lemma_split_concat(a: Seq<char>, b: Seq<char>)
    requires
        "Display "@ =~= seq!['D', 'i', 's', 'p', 'l', 'a', 'y', ' '],
        a.len() == 0 || a.last() == '\n',
        b.len() >= 8,
        b.take(8) == "Display "@,
    ensures
        split_str(a + b, "Display "@) == split_str(a, "Display "@) + split_str(
            b,
            "Display "@,
        ).drop_first(),
    decreases a.len(),
{
    let p = "Display "@;
    lemma_split_at_start(b);
    match find(a, p) {
        Some(k) => {
            lemma_split_found(a, p, k);
            lemma_find_from(a, p, 0);
            let ab = a + b;
            assert(ab.subrange(k, k + 8) =~= a.subrange(k, k + 8));
            assert forall|j: int| 0 <= j < k implies !matches_at(ab, p, j) by {
                assert(!matches_at(a, p, j));
                assert(ab.subrange(j, j + 8) =~= a.subrange(j, j + 8));
            }
            lemma_find_first(ab, p, k);
            lemma_split_found(ab, p, k);
            let a2 = a.skip(k + 8);
            assert(ab.take(k) =~= a.take(k));
            assert(ab.skip(k + 8) =~= a2 + b);
            assert(a2.len() > 0 ==> a2.last() == a.last());
            lemma_split_concat(a2, b);
            let pa = split_str(a, p);
            let pab = split_str(ab, p);
            let pbd = split_str(b, p).drop_first();
            assert(pa =~= seq![pa[0]] + pa.drop_first());
            assert(pab =~= seq![pab[0]] + pab.drop_first());
            assert(pab[0] == pa[0]);
            assert(pab.drop_first() == pa.drop_first() + pbd);
            assert(seq![pa[0]] + (pa.drop_first() + pbd) =~= (seq![pa[0]] + pa.drop_first()) + pbd);
            assert(pab =~= pa + pbd);
        },
        None => {
            if a.len() == 0 {
                assert(a =~= Seq::<char>::empty());
                assert(a + b =~= b);
                lemma_split_not_found(a, p);
                let pb = split_str(b, p);
                assert(pb =~= seq![Seq::<char>::empty()] + pb.drop_first());
            } else {
                lemma_split_not_found(a, p);
                lemma_split_after_body(a, b);
            }
        },
    }
}

/// The monitors of two sequences of blocks, one after the other, are those
/// of the first, then those of the second.
proof fn lemma_monitors_concat(x: Seq<Seq<char>>, y: Seq<Seq<char>>)
    requires
        monitors_from_blocks(x) is Ok,
        monitors_from_blocks(y) is Ok,
    ensures
        monitors_from_blocks(x + y) == Ok::<Seq<MonitorView>, Seq<char>>(
            monitors_from_blocks(x)->Ok_0 + monitors_from_blocks(y)->Ok_0,
        ),
    decreases x.len(),
{
    if x.len() == 0 {
        assert(x + y =~= y);
        assert(Seq::<MonitorView>::empty() + monitors_from_blocks(y)->Ok_0 =~= monitors_from_blocks(
            y,
        )->Ok_0);
    } else {
        assert((x + y)[0] == x[0]);
        assert((x + y).drop_first() =~= x.drop_first() + y);
        lemma_monitors_concat(x.drop_first(), y);
        let rest = monitors_from_blocks(x.drop_first())->Ok_0;
        let ys = monitors_from_blocks(y)->Ok_0;
        match block_outcome(x[0]) {
            BlockOutcome::Found(m) => {
                assert(seq![m] + (rest + ys) =~= (seq![m] + rest) + ys);
            },
            _ => {},
        }
    }
}

/// Law: two detection reports read one after the other, the first empty or
/// ending with a line feed and the second starting with `Display `, give the
/// monitors of the first, then those of the second, in order.
pub proof fn law_detect_reports_concatenate(a: Seq<char>, b: Seq<char>)
    requires
        a.len() == 0 || a.last() == '\n',
        b.len() >= 8,
        b.take(8) == "Display "@,
        detect_report(a) is Ok,
        detect_report(b) is Ok,
    ensures
        detect_report(a + b) == Ok::<Seq<MonitorView>, Seq<char>>(
            detect_report(a)->Ok_0 + detect_report(b)->Ok_0,
        ),
{
    lemma_detect_literals();
    let p = "Display "@;
    lemma_split_concat(a, b);
    let pa = split_str(a, p);
    let pb = split_str(b, p);
    lemma_split_at_start(b);
    assert(pb[0] =~= Seq::<char>::empty());
    assert(block_outcome(pb[0]) == BlockOutcome::Skipped);
    assert(monitors_from_blocks(pb) == monitors_from_blocks(pb.drop_first()));
    lemma_monitors_concat(pa, pb.drop_first());
}

/// The line that `ddcutil getvcp 10` prints for a brightness of `current`
/// out of `max`: `pad0` spaces pad the feature name, `pad1` and `pad2` the
/// two values.
pub open spec fn getvcp_line(current: u8, max: u8, pad0: nat, pad1: nat, pad2: nat) -> Seq<
    char,
> {
    "VCP code 0x10 (Brightness"@ + spaces(pad0) + "): "@ + "current value = "@ + spaces(pad1)
        + decimal(current as nat) + ", "@ + "max value = "@ + spaces(pad2) + decimal(max as nat)
        + "\n"@
}

/// The literals of a brightness line, by their characters.
proof fn lemma_getvcp_literals()
    ensures
        "VCP code 0x10 (Brightness"@ =~= seq![
            'V', 'C', 'P', ' ', 'c', 'o', 'd', 'e', ' ', '0', 'x', '1', '0', ' ', '(', 'B', 'r',
            'i', 'g', 'h', 't', 'n', 'e', 's', 's',
        ],
        "): "@ =~= seq![')', ':', ' '],
        "current value = "@ =~= seq![
            'c', 'u', 'r', 'r', 'e', 'n', 't', ' ', 'v', 'a', 'l', 'u', 'e', ' ', '=', ' ',
        ],
        ", "@ =~= seq![',', ' '],
        ","@ =~= seq![','],
        "max value = "@ =~= seq!['m', 'a', 'x', ' ', 'v', 'a', 'l', 'u', 'e', ' ', '=', ' '],
        "\n"@ =~= seq!['\n'],
{
    reveal_strlit("VCP code 0x10 (Brightness");
    reveal_strlit("): ");
    reveal_strlit("current value = ");
    reveal_strlit(", ");
    reveal_strlit(",");
    reveal_strlit("max value = ");
    reveal_strlit("\n");
}

/// The current value of a brightness line reads back.
proof fn lemma_getvcp_current(current: u8, max: u8, pad0: nat, pad1: nat, pad2: nat)
    ensures
        current_value(getvcp_line(current, max, pad0, pad1, pad2)) == Some(current),
{
    lemma_getvcp_literals();
    let a = "VCP code 0x10 (Brightness"@;
    let c = "): "@;
    let p1 = "current value = "@;
    let w1 = spaces(pad1);
    let d1 = decimal(current as nat);
    let b = ", "@;
    let p2 = "max value = "@;
    let d2 = decimal(max as nat);
    let nl = "\n"@;
    let comma = ","@;
    let s = getvcp_line(current, max, pad0, pad1, pad2);
    lemma_decimal_chars(current as nat);
    lemma_decimal_chars(max as nat);
    lemma_parse_decimal(current);
    let x = a + spaces(pad0) + c;
    let rest1 = w1 + d1 + b + p2 + spaces(pad2) + d2 + nl;
    let o1 = x.len() as int;
    assert(s =~= x + p1 + rest1);
    assert(find(s, p1) == Some(o1)) by {
        assert(s.subrange(o1, o1 + 16) =~= p1);
        assert forall|j: int| 0 <= j < o1 implies !matches_at(s, p1, j) by {
            if j == 4 {
                lemma_mismatch(s, p1, j, 1);
            } else {
                lemma_mismatch(s, p1, j, 0);
            }
        }
        lemma_find_first(s, p1, o1);
    }
    assert(second_piece(s, p1) == Some(rest1)) by {
        lemma_split_found(s, p1, o1);
        assert(s.skip(o1 + 16) =~= rest1);
        assert(lacks(rest1, 'c'));
        lemma_find_lacking(rest1, p1);
        lemma_split_not_found(rest1, p1);
        assert(split_str(s, p1)[1] == split_str(s, p1).drop_first()[0]);
    }
    let k = (pad1 + d1.len()) as int;
    assert(split_str(rest1, comma)[0] == w1 + d1) by {
        assert(rest1.subrange(k, k + 1) =~= comma);
        assert(rest1.take(k) =~= w1 + d1);
        assert(lacks(rest1.take(k), ','));
        lemma_find_after_lacking(rest1, comma, k);
        lemma_split_found(rest1, comma, k);
    }
    assert(trim(w1 + d1) == d1) by {
        lemma_trim_start_spaces(pad1, d1);
        assert(!is_ws(d1.last()));
    }
}

/// The maximum value of a brightness line reads back.
proof fn lemma_getvcp_max(current: u8, max: u8, pad0: nat, pad1: nat, pad2: nat)
    ensures
        max_value(getvcp_line(current, max, pad0, pad1, pad2)) == Some(max),
{
    lemma_getvcp_literals();
    let a = "VCP code 0x10 (Brightness"@;
    let c = "): "@;
    let p1 = "current value = "@;
    let d1 = decimal(current as nat);
    let b = ", "@;
    let p2 = "max value = "@;
    let w2 = spaces(pad2);
    let d2 = decimal(max as nat);
    let nl = "\n"@;
    let s = getvcp_line(current, max, pad0, pad1, pad2);
    lemma_decimal_chars(current as nat);
    lemma_decimal_chars(max as nat);
    lemma_parse_decimal(max);
    let y = a + spaces(pad0) + c + p1 + spaces(pad1) + d1 + b;
    let rest2 = w2 + d2 + nl;
    let o2 = y.len() as int;
    assert(s =~= y + p2 + rest2);
    assert(find(s, p2) == Some(o2)) by {
        assert(s.subrange(o2, o2 + 12) =~= p2);
        assert(s.take(o2) =~= y);
        assert(lacks(y, 'm'));
        lemma_find_after_lacking(s, p2, o2);
    }
    assert(second_piece(s, p2) == Some(rest2)) by {
        lemma_split_found(s, p2, o2);
        assert(s.skip(o2 + 12) =~= rest2);
        assert(lacks(rest2, 'm'));
        lemma_find_lacking(rest2, p2);
        lemma_split_not_found(rest2, p2);
        assert(split_str(s, p2)[1] == split_str(s, p2).drop_first()[0]);
    }
    assert(first_word(rest2) == Some(d2)) by {
        assert(rest2 =~= w2 + (d2 + nl));
        lemma_trim_start_spaces(pad2, d2 + nl);
        lemma_take_until_ws(d2, nl);
    }
}

/// Law: the brightness line that `ddcutil getvcp 10` prints reads back as
/// the current and maximum brightness it was printed with, whatever the
/// padding.
pub proof fn law_getvcp_line_reads_back(current: u8, max: u8, pad0: nat, pad1: nat, pad2: nat)
    ensures
        brightness_report(getvcp_line(current, max, pad0, pad1, pad2)) == Ok::<(u8, u8), Seq<char>>(
            (current, max),
        ),
{
    lemma_getvcp_current(current, max, pad0, pad1, pad2);
    lemma_getvcp_max(current, max, pad0, pad1, pad2);
}

/// Law: a detection run that succeeds and prints the report of printable
/// monitors gives exactly those monitors, all of them, in order, each with
/// its display number, its I2C bus and its model as name; one that prints no
/// monitor is refused; one that fails gives its standard error, trimmed.
pub proof fn law_detect_outcome(
    ms: Seq<PrintedMonitor>,
    stdout: Seq<u8>,
    stderr: Seq<u8>,
)
    requires
        forall|i: int| 0 <= i < ms.len() ==> printable(#[trigger] ms[i]),
        lossy_utf8(stdout) == detect_text(ms),
    ensures
        ms.len() > 0 ==> detect_outcome_spec(true, stdout, stderr) == Ok::<
            Seq<MonitorView>,
            Seq<char>,
        >(shown_all(ms)),
        ms.len() > 0 ==> detect_outcome_spec(true, stdout, stderr)->Ok_0.len() == ms.len(),
        ms.len() == 0 ==> detect_outcome_spec(true, stdout, stderr) == Err::<
            Seq<MonitorView>,
            Seq<char>,
        >(no_monitors_message()),
        detect_outcome_spec(false, stdout, stderr) == Err::<Seq<MonitorView>, Seq<char>>(
            trim(lossy_utf8(stderr)),
        ),
{
    law_detect_report_reads_back(ms);
}

/// Law: a brightness read that succeeds and prints the line of a current and
/// a maximum brightness, whatever they are (equal or not) and whatever the
/// padding, gives exactly those two values; one that fails gives its
/// standard error, trimmed.
pub proof fn law_read_outcome(
    current: u8,
    max: u8,
    pad0: nat,
    pad1: nat,
    pad2: nat,
    stdout: Seq<u8>,
    stderr: Seq<u8>,
)
    requires
        lossy_utf8(stdout) == getvcp_line(current, max, pad0, pad1, pad2),
    ensures
        read_outcome_spec(true, stdout, stderr) == Ok::<(u8, u8), Seq<char>>((current, max)),
        read_outcome_spec(false, stdout, stderr) == Err::<(u8, u8), Seq<char>>(
            trim(lossy_utf8(stderr)),
        ),
{
    law_getvcp_line_reads_back(current, max, pad0, pad1, pad2);
}

/// Law: a brightness write that succeeds is `Ok`, whatever it printed; one
/// that fails gives its standard error, trimmed.
pub proof fn law_set_outcome(stderr: Seq<u8>)
    ensures
        set_outcome_spec(true, stderr) == Ok::<(), Seq<char>>(()),
        set_outcome_spec(false, stderr) == Err::<(), Seq<char>>(trim(lossy_utf8(stderr))),
{
}

} // verus!
