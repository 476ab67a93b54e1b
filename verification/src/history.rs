use base64::Engine;
use vstd::prelude::*;

use crate::text::{chars_of, push_all, push_str, string_of};
use crate::updater::oview;

verus! {

/// A recording of audio.
#[derive(Debug, Clone)]
pub struct Recording {
    pub id: i64,
    pub audio_path: String,
    pub timestamp: i64,
    pub duration_secs: u32,
}

/// A transcription of a recording by one model.
#[derive(Debug, Clone)]
pub struct Transcription {
    pub id: i64,
    pub recording_id: i64,
    pub text: String,
    pub model_name: String,
    pub transcriber_type: String,
    pub created_at: i64,
}

/// A history entry: a recording with its transcriptions.
#[derive(Debug, Clone)]
pub struct HistoryEntry {
    pub recording: Recording,
    pub transcriptions: Vec<Transcription>,
    pub audio_exists: bool,
}

/// The decimal digit `d` (0..=9).
pub open spec fn digit(d: int) -> char {
    (d + 48) as char
}

/// The decimal text of a number.
pub open spec fn dec(n: nat) -> Seq<char>
    decreases n,
{
    if n < 10 {
        seq![digit(n as int)]
    } else {
        dec(n / 10).push(digit((n % 10) as int))
    }
}

/// The decimal text of a number, as `format!("{}")` writes it.
pub fn dec_text(n: u64) -> (r: Vec<char>)
    ensures
        r@ == dec(n as nat),
    decreases n,
{
    let d = (n % 10) as u8;
    let c = (d + 48) as char;
    if n < 10 {
        let mut v: Vec<char> = Vec::new();
        v.push(c);
        assert(v@ =~= dec(n as nat));
        v
    } else {
        let mut v = dec_text(n / 10);
        v.push(c);
        v
    }
}

/// What `chrono::DateTime::from_timestamp(ts, 0)` formats as
/// `%Y-%m-%d %H:%M:%S` (UTC); none for a timestamp out of chrono's range.
pub uninterp spec fn utc_text(ts: i64) -> Option<Seq<char>>;

/// `chrono::DateTime::from_timestamp(ts, 0)` with `format("%Y-%m-%d %H:%M:%S")`.
/// Claimed: the result is `utc_text(ts)`, a function of the timestamp alone
/// (the time zone is UTC, not the machine's).
#[verifier::external_body]
fn format_utc(ts: i64) -> (r: Option<String>)
    ensures
        oview(r) == utc_text(ts),
{
    match chrono::DateTime::from_timestamp(ts, 0) {
        Some(d) => Some(d.format("%Y-%m-%d %H:%M:%S").to_string()),
        None => None,
    }
}

/// The date of a recording as exported: its UTC time, empty when chrono
/// cannot represent it.
pub open spec fn date_text(ts: i64) -> Seq<char> {
    match utc_text(ts) {
        Some(t) => t,
        None => Seq::empty(),
    }
}

fn date_vec(ts: i64) -> (r: Vec<char>)
    ensures
        r@ == date_text(ts),
{
    match format_utc(ts) {
        Some(s) => chars_of(s.as_str()),
        None => Vec::new(),
    }
}

/// A text with each double quote doubled, for a CSV field.
pub open spec fn csv_escape(s: Seq<char>) -> Seq<char>
    decreases s.len(),
{
    if s.len() == 0 {
        Seq::empty()
    } else if s.last() == '"' {
        csv_escape(s.drop_last()) + seq!['"', '"']
    } else {
        csv_escape(s.drop_last()).push(s.last())
    }
}

fn csv_escape_vec(s: &Vec<char>) -> (r: Vec<char>)
    ensures
        r@ == csv_escape(s@),
{
    let mut r: Vec<char> = Vec::new();
    let mut i: usize = 0;
    while i < s.len()
        invariant
            i <= s.len(),
            r@ == csv_escape(s@.take(i as int)),
        decreases s.len() - i,
    {
        assert(s@.take(i + 1).drop_last() =~= s@.take(i as int));
        assert(s@.take(i + 1).last() == s@[i as int]);
        let ghost r0 = r@;
        if s[i] == '"' {
            r.push('"');
            r.push('"');
            assert(r@ =~= r0 + seq!['"', '"']);
        } else {
            r.push(s[i]);
        }
        i = i + 1;
    }
    assert(s@.take(s@.len() as int) =~= s@);
    r
}

/// The CSV line of one transcription of a recording.
pub open spec fn csv_line(rec: Recording, t: Transcription) -> Seq<char> {
    date_text(rec.timestamp) + ";"@ + dec(rec.duration_secs as nat) + ";"@ + t.model_name@ + ";"@
        + t.transcriber_type@ + ";\""@ + csv_escape(t.text@) + "\"\n"@
}

/// The CSV lines of the transcriptions of a recording, in order.
pub open spec fn csv_lines(rec: Recording, ts: Seq<Transcription>) -> Seq<char>
    decreases ts.len(),
{
    if ts.len() == 0 {
        Seq::empty()
    } else {
        csv_lines(rec, ts.drop_last()) + csv_line(rec, ts.last())
    }
}

/// The text block of a recording: its date and length, then one indented
/// line per transcription, then an empty line.
pub open spec fn txt_block(e: HistoryEntry) -> Seq<char> {
    "["@ + date_text(e.recording.timestamp) + "] ("@ + dec(e.recording.duration_secs as nat)
        + "с)\n"@ + txt_lines(e.transcriptions@) + "\n"@
}

/// The indented lines of the transcriptions.
pub open spec fn txt_lines(ts: Seq<Transcription>) -> Seq<char>
    decreases ts.len(),
{
    if ts.len() == 0 {
        Seq::empty()
    } else {
        txt_lines(ts.drop_last()) + "  ["@ + ts.last().model_name@ + "] "@ + ts.last().text@
            + "\n"@
    }
}

/// The header of the CSV export, after a byte-order mark for spreadsheets.
pub open spec fn csv_header() -> Seq<char> {
    "\u{FEFF}Дата;Длительность (сек);Модель;Движок;Текст\n"@
}

/// The export of the history: CSV for the format `csv`, plain text for any
/// other.
pub open spec fn spec_export(entries: Seq<HistoryEntry>, format: Seq<char>) -> Seq<char>
    decreases entries.len(),
{
    if entries.len() == 0 {
        if format == "csv"@ {
            csv_header()
        } else {
            Seq::empty()
        }
    } else {
        let e = entries.last();
        spec_export(entries.drop_last(), format) + if format == "csv"@ {
            csv_lines(e.recording, e.transcriptions@)
        } else {
            txt_block(e)
        }
    }
}

fn csv_lines_vec(out: &mut Vec<char>, e: &HistoryEntry)
    ensures
        final(out)@ == old(out)@ + csv_lines(e.recording, e.transcriptions@),
{
    let ts = &e.transcriptions;
    let date = date_vec(e.recording.timestamp);
    let dur = dec_text(e.recording.duration_secs as u64);
    let mut i: usize = 0;
    while i < ts.len()
        invariant
            i <= ts.len(),
            ts == &e.transcriptions,
            date@ == date_text(e.recording.timestamp),
            dur@ == dec(e.recording.duration_secs as nat),
            out@ == old(out)@ + csv_lines(e.recording, ts@.take(i as int)),
        decreases ts.len() - i,
    {
        let t = &ts[i];
        assert(ts@.take(i + 1).drop_last() =~= ts@.take(i as int));
        assert(ts@.take(i + 1).last() == ts@[i as int]);
        let ghost o0 = out@;
        push_all(out, &date);
        push_str(out, ";");
        push_all(out, &dur);
        push_str(out, ";");
        push_all(out, &chars_of(t.model_name.as_str()));
        push_str(out, ";");
        push_all(out, &chars_of(t.transcriber_type.as_str()));
        push_str(out, ";\"");
        push_all(out, &csv_escape_vec(&chars_of(t.text.as_str())));
        push_str(out, "\"\n");
        assert(out@ =~= o0 + csv_line(e.recording, ts@[i as int]));
        i = i + 1;
    }
    assert(ts@.take(ts@.len() as int) =~= ts@);
}

fn txt_block_vec(out: &mut Vec<char>, e: &HistoryEntry)
    ensures
        final(out)@ == old(out)@ + txt_block(*e),
{
    let ts = &e.transcriptions;
    let date = date_vec(e.recording.timestamp);
    let dur = dec_text(e.recording.duration_secs as u64);
    let ghost o0 = out@;
    push_str(out, "[");
    push_all(out, &date);
    push_str(out, "] (");
    push_all(out, &dur);
    push_str(out, "с)\n");
    let ghost head = out@;
    let mut i: usize = 0;
    while i < ts.len()
        invariant
            i <= ts.len(),
            ts == &e.transcriptions,
            out@ == head + txt_lines(ts@.take(i as int)),
        decreases ts.len() - i,
    {
        let t = &ts[i];
        assert(ts@.take(i + 1).drop_last() =~= ts@.take(i as int));
        assert(ts@.take(i + 1).last() == ts@[i as int]);
        push_str(out, "  [");
        push_all(out, &chars_of(t.model_name.as_str()));
        push_str(out, "] ");
        push_all(out, &chars_of(t.text.as_str()));
        push_str(out, "\n");
        i = i + 1;
        assert(out@ =~= head + txt_lines(ts@.take(i as int)));
    }
    assert(ts@.take(ts@.len() as int) =~= ts@);
    push_str(out, "\n");
    assert(out@ =~= o0 + txt_block(*e));
}

/// How often `c` occurs in `s`.
pub open spec fn count_char(s: Seq<char>, c: char) -> nat
    decreases s.len(),
{
    if s.len() == 0 {
        0
    } else {
        count_char(s.drop_last(), c) + if s.last() == c {
            1nat
        } else {
            0nat
        }
    }
}

/// The number of transcriptions over all entries.
pub open spec fn total_transcriptions(entries: Seq<HistoryEntry>) -> nat
    decreases entries.len(),
{
    if entries.len() == 0 {
        0
    } else {
        total_transcriptions(entries.drop_last()) + entries.last().transcriptions@.len()
    }
}

/// Whether no field of the CSV lines of `e` holds a line break.
pub open spec fn single_line_fields(e: HistoryEntry) -> bool {
    &&& count_char(date_text(e.recording.timestamp), '\n') == 0
    &&& forall|i: int|
        0 <= i < e.transcriptions@.len() ==> {
            let t = #[trigger] e.transcriptions@[i];
            &&& count_char(t.model_name@, '\n') == 0
            &&& count_char(t.transcriber_type@, '\n') == 0
            &&& count_char(t.text@, '\n') == 0
        }
}

proof fn lemma_count_concat(a: Seq<char>, b: Seq<char>, c: char)
    ensures
        count_char(a + b, c) == count_char(a, c) + count_char(b, c),
    decreases b.len(),
{
    if b.len() == 0 {
        assert(a + b =~= a);
    } else {
        lemma_count_concat(a, b.drop_last(), c);
        assert((a + b).drop_last() =~= a + b.drop_last());
        assert((a + b).last() == b.last());
    }
}

proof fn lemma_count_escape(s: Seq<char>)
    ensures
        count_char(csv_escape(s), '\n') == count_char(s, '\n'),
    decreases s.len(),
{
    if s.len() > 0 {
        lemma_count_escape(s.drop_last());
        if s.last() == '"' {
            lemma_count_concat(csv_escape(s.drop_last()), seq!['"', '"'], '\n');
            reveal_with_fuel(count_char, 3);
            assert(seq!['"', '"'].drop_last() =~= seq!['"']);
            assert(seq!['"'].drop_last() =~= Seq::<char>::empty());
        } else {
            let x = csv_escape(s.drop_last());
            assert(x.push(s.last()).drop_last() =~= x);
        }
    }
}

proof fn lemma_count_dec(n: nat)
    ensures
        count_char(dec(n), '\n') == 0,
    decreases n,
{
    if n < 10 {
        let d = digit(n as int);
        reveal_with_fuel(count_char, 2);
        assert(seq![d].drop_last() =~= Seq::<char>::empty());
        assert(d != '\n') by {
            assert((n as int + 48) as char == d);
            assert(48 <= n + 48 < 58);
        }
    } else {
        lemma_count_dec(n / 10);
        let x = dec(n / 10);
        let d = digit((n % 10) as int);
        assert(x.push(d).drop_last() =~= x);
        assert(d != '\n') by {
            assert(48 <= (n % 10) + 48 < 58);
        }
    }
}

proof fn lemma_csv_line_one_break(rec: Recording, t: Transcription)
    requires
        count_char(date_text(rec.timestamp), '\n') == 0,
        count_char(t.model_name@, '\n') == 0,
        count_char(t.transcriber_type@, '\n') == 0,
        count_char(t.text@, '\n') == 0,
    ensures
        count_char(csv_line(rec, t), '\n') == 1,
{
    reveal_strlit(";");
    reveal_strlit(";\"");
    reveal_strlit("\"\n");
    reveal_with_fuel(count_char, 3);
    assert(";"@.drop_last() =~= Seq::<char>::empty());
    assert(";\""@.drop_last() =~= ";"@);
    assert("\"\n"@.drop_last() =~= seq!['"']);
    assert(seq!['"'].drop_last() =~= Seq::<char>::empty());
    assert(count_char(";"@, '\n') == 0);
    assert(count_char(";\""@, '\n') == 0);
    assert(count_char("\"\n"@, '\n') == 1);
    lemma_count_dec(rec.duration_secs as nat);
    lemma_count_escape(t.text@);
    let d = date_text(rec.timestamp);
    let u = dec(rec.duration_secs as nat);
    let a1 = d + ";"@;
    let a2 = a1 + u;
    let a3 = a2 + ";"@;
    let a4 = a3 + t.model_name@;
    let a5 = a4 + ";"@;
    let a6 = a5 + t.transcriber_type@;
    let a7 = a6 + ";\""@;
    let a8 = a7 + csv_escape(t.text@);
    lemma_count_concat(d, ";"@, '\n');
    lemma_count_concat(a1, u, '\n');
    lemma_count_concat(a2, ";"@, '\n');
    lemma_count_concat(a3, t.model_name@, '\n');
    lemma_count_concat(a4, ";"@, '\n');
    lemma_count_concat(a5, t.transcriber_type@, '\n');
    lemma_count_concat(a6, ";\""@, '\n');
    lemma_count_concat(a7, csv_escape(t.text@), '\n');
    lemma_count_concat(a8, "\"\n"@, '\n');
    assert(csv_line(rec, t) == a8 + "\"\n"@);
}

proof fn lemma_csv_lines_breaks(e: HistoryEntry, n: int)
    requires
        single_line_fields(e),
        0 <= n <= e.transcriptions@.len(),
    ensures
        count_char(csv_lines(e.recording, e.transcriptions@.take(n)), '\n') == n,
    decreases n,
{
    let ts = e.transcriptions@;
    if n == 0 {
        assert(ts.take(0) =~= Seq::<Transcription>::empty());
    } else {
        lemma_csv_lines_breaks(e, n - 1);
        assert(ts.take(n).drop_last() =~= ts.take(n - 1));
        assert(ts.take(n).last() == ts[n - 1]);
        let t = ts[n - 1];
        assert(count_char(t.model_name@, '\n') == 0 && count_char(t.transcriber_type@, '\n') == 0 && count_char(
            t.text@,
            '\n',
        ) == 0);
        lemma_csv_line_one_break(e.recording, t);
        lemma_count_concat(csv_lines(e.recording, ts.take(n - 1)), csv_line(e.recording, t), '\n');
    }
}

/// The CSV export has one line per transcription: besides the header's
/// line break, it holds exactly one per transcription of every entry, when
/// no exported field holds a line break itself.
pub proof fn lemma_csv_export_line_per_transcription(entries: Seq<HistoryEntry>)
    requires
        forall|k: int| 0 <= k < entries.len() ==> single_line_fields(#[trigger] entries[k]),
    ensures
        count_char(spec_export(entries, "csv"@), '\n') == 1 + total_transcriptions(entries),
    decreases entries.len(),
{
    if entries.len() == 0 {
        let h = csv_header();
        reveal_strlit("\u{FEFF}Дата;Длительность (сек);Модель;Движок;Текст\n");
        let body = h.drop_last();
        assert(h.last() == '\n');
        assert forall|j: int| 0 <= j < body.len() implies #[trigger] body[j] != '\n' by {
            assert(body[j] == h[j]);
        }
        lemma_count_free(body);
    } else {
        let p = entries.drop_last();
        assert forall|k: int| 0 <= k < p.len() implies single_line_fields(#[trigger] p[k]) by {
            assert(p[k] == entries[k]);
        }
        lemma_csv_export_line_per_transcription(p);
        let e = entries.last();
        assert(single_line_fields(entries[entries.len() - 1]));
        lemma_csv_lines_breaks(e, e.transcriptions@.len() as int);
        assert(e.transcriptions@.take(e.transcriptions@.len() as int) =~= e.transcriptions@);
        lemma_count_concat(spec_export(p, "csv"@), csv_lines(e.recording, e.transcriptions@), '\n');
    }
}

proof fn lemma_count_free(s: Seq<char>)
    requires
        forall|j: int| 0 <= j < s.len() ==> #[trigger] s[j] != '\n',
    ensures
        count_char(s, '\n') == 0,
    decreases s.len(),
{
    if s.len() > 0 {
        let p = s.drop_last();
        assert forall|j: int| 0 <= j < p.len() implies #[trigger] p[j] != '\n' by {
            assert(p[j] == s[j]);
        }
        lemma_count_free(p);
    }
}

/// The CSV field of a transcription's text: quoted, with its quotes
/// doubled, closing its line.
pub open spec fn csv_text_field(t: Transcription) -> Seq<char> {
    ";\""@ + csv_escape(t.text@) + "\"\n"@
}

proof fn lemma_csv_lines_hold_text(rec: Recording, ts: Seq<Transcription>, i: int) -> (ab: (Seq<char>, Seq<char>))
    requires
        0 <= i < ts.len(),
    ensures
        csv_lines(rec, ts) == ab.0 + csv_text_field(ts[i]) + ab.1,
    decreases ts.len(),
{
    let p = ts.drop_last();
    let t = ts.last();
    let pre = date_text(rec.timestamp) + ";"@ + dec(rec.duration_secs as nat) + ";"@ + t.model_name@ + ";"@
        + t.transcriber_type@;
    assert(csv_line(rec, t) =~= pre + csv_text_field(t));
    if i == ts.len() - 1 {
        let a = csv_lines(rec, p) + pre;
        assert(csv_lines(rec, ts) =~= a + csv_text_field(ts[i]) + Seq::<char>::empty());
        (a, Seq::<char>::empty())
    } else {
        let (a, b) = lemma_csv_lines_hold_text(rec, p, i);
        assert(p[i] == ts[i]);
        assert(csv_lines(rec, ts) =~= a + csv_text_field(ts[i]) + (b + csv_line(rec, t)));
        (a, b + csv_line(rec, t))
    }
}

/// Every transcription is in the CSV export: for transcription `i` of entry
/// `k`, its text, quoted with its quotes doubled, stands in the export
/// between the text before and after it (returned).
pub proof fn lemma_csv_export_holds_every_text(entries: Seq<HistoryEntry>, k: int, i: int) -> (ab: (
    Seq<char>,
    Seq<char>,
))
    requires
        0 <= k < entries.len(),
        0 <= i < entries[k].transcriptions@.len(),
    ensures
        spec_export(entries, "csv"@) == ab.0 + csv_text_field(entries[k].transcriptions@[i]) + ab.1,
    decreases entries.len(),
{
    let p = entries.drop_last();
    let e = entries.last();
    let x = csv_text_field(entries[k].transcriptions@[i]);
    if k == entries.len() - 1 {
        let (a, b) = lemma_csv_lines_hold_text(e.recording, e.transcriptions@, i);
        assert(spec_export(entries, "csv"@) =~= (spec_export(p, "csv"@) + a) + x + b);
        (spec_export(p, "csv"@) + a, b)
    } else {
        assert(p[k] == entries[k]);
        let (a, b) = lemma_csv_export_holds_every_text(p, k, i);
        let rest = csv_lines(e.recording, e.transcriptions@);
        assert(spec_export(entries, "csv"@) =~= a + x + (b + rest));
        (a, b + rest)
    }
}

/// Exports the history, entries in the order given: CSV (`csv`) or plain
/// text (any other format).
pub fn export_entries(entries: &Vec<HistoryEntry>, format: &str) -> (r: String)
    ensures
        r@ == spec_export(entries@, format@),
{
    let fv = chars_of(format);
    let csv = crate::text::eq_str(&fv, "csv");
    let mut out: Vec<char> = if csv {
        chars_of("\u{FEFF}Дата;Длительность (сек);Модель;Движок;Текст\n")
    } else {
        Vec::new()
    };
    let mut i: usize = 0;
    while i < entries.len()
        invariant
            i <= entries.len(),
            csv == (format@ == "csv"@),
            out@ == spec_export(entries@.take(i as int), format@),
        decreases entries.len() - i,
    {
        assert(entries@.take(i + 1).drop_last() =~= entries@.take(i as int));
        assert(entries@.take(i + 1).last() == entries@[i as int]);
        if csv {
            csv_lines_vec(&mut out, &entries[i]);
        } else {
            txt_block_vec(&mut out, &entries[i]);
        }
        i = i + 1;
    }
    assert(entries@.take(entries@.len() as int) =~= entries@);
    string_of(&out)
}

/// The timestamp before which recordings are removed, for a retention of
/// `hours`; none when retention is off (zero hours).
pub fn retention_cutoff(now: i64, hours: u64) -> (r: Option<i64>)
    requires
        hours * 3600 <= i64::MAX,
        now - hours * 3600 >= i64::MIN,
    ensures
        hours == 0 ==> r is None,
        hours > 0 ==> r == Some((now - hours * 3600) as i64),
{
    if hours == 0 {
        None
    } else {
        Some(now - (hours as i64) * 3600)
    }
}

/// The character of a six-bit value in the standard base64 alphabet
/// (RFC 4648): `A`-`Z`, `a`-`z`, `0`-`9`, `+`, `/`.
pub open spec fn b64_char(v: int) -> char {
    if v < 26 {
        (65 + v) as char
    } else if v < 52 {
        (97 + v - 26) as char
    } else if v < 62 {
        (48 + v - 52) as char
    } else if v == 62 {
        '+'
    } else {
        '/'
    }
}

/// Standard base64 with `=` padding: each group of three bytes becomes four
/// characters of six bits each; a last group of one or two bytes becomes
/// two or three characters followed by `==` or `=`.
pub open spec fn base64_standard(b: Seq<u8>) -> Seq<char>
    decreases b.len(),
{
    if b.len() == 0 {
        Seq::empty()
    } else {
        let x = b[0] as int;
        let y = if b.len() > 1 {
            b[1] as int
        } else {
            0
        };
        let z = if b.len() > 2 {
            b[2] as int
        } else {
            0
        };
        if b.len() == 1 {
            seq![b64_char(x / 4), b64_char((x % 4) * 16), '=', '=']
        } else if b.len() == 2 {
            seq![b64_char(x / 4), b64_char((x % 4) * 16 + y / 16), b64_char((y % 16) * 4), '=']
        } else {
            seq![
                b64_char(x / 4),
                b64_char((x % 4) * 16 + y / 16),
                b64_char((y % 16) * 4 + z / 64),
                b64_char(z % 64),
            ] + base64_standard(b.subrange(3, b.len() as int))
        }
    }
}

/// Four characters for every started group of three bytes.
proof fn lemma_base64_len(b: Seq<u8>)
    ensures
        base64_standard(b).len() == 4 * ((b.len() + 2) / 3),
    decreases b.len(),
{
    if b.len() >= 3 {
        lemma_base64_len(b.subrange(3, b.len() as int));
    }
}

/// `base64::engine::general_purpose::STANDARD.encode`. Claimed: the result
/// is the standard base64 text of the bytes (alphabet of RFC 4648, `=`
/// padding), as `base64_standard` spells it out.
#[verifier::external_body]
fn encode_base64(bytes: &[u8]) -> (r: String)
    requires
        4 * ((bytes@.len() + 2) / 3) <= usize::MAX,
    ensures
        r@ == base64_standard(bytes@),
{
    base64::engine::general_purpose::STANDARD.encode(bytes)
}

/// The audio of a recording as the player receives it: the raw bytes in
/// base64 and the sample rate.
pub struct AudioData {
    pub data: String,
    pub sample_rate: u32,
}

/// Packs the raw audio of a recording for the player.
pub fn audio_data(raw: &[u8], sample_rate: u32) -> (r: AudioData)
    requires
        4 * ((raw@.len() + 2) / 3) <= usize::MAX,
    ensures
        r.data@ == base64_standard(raw@),
        r.data@.len() == 4 * ((raw@.len() + 2) / 3),
        r.sample_rate == sample_rate,
{
    proof {
        lemma_base64_len(raw@);
    }
    AudioData { data: encode_base64(raw), sample_rate }
}

} // verus!
