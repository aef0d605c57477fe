//! Delivery receipts: the de-facto text body and the optional parameters that
//! fill its gaps.
use crate::text;
use vstd::prelude::*;

verus! {

/// Best-effort parse of the de-facto SMSC delivery-receipt body, e.g.
/// `id:0a1b2 sub:001 dlvrd:001 submit date:2401011200 done date:2401011201
/// stat:DELIVRD err:000 text:Hello`.
///
/// The format is not standardised, so the parser recognises the canonical key
/// set and tolerates missing keys / extra whitespace. `text` always runs to the
/// end of the body.
#[derive(Debug, Default, PartialEq)]
pub struct Receipt {
    pub id: Option<String>,
    pub sub: Option<String>,
    pub dlvrd: Option<String>,
    pub submit_date: Option<String>,
    pub done_date: Option<String>,
    pub stat: Option<String>,
    pub err: Option<String>,
    pub text: Option<String>,
    /// The numeric message state, where a parameter carries it.
    pub message_state: Option<u8>,
    /// The undecoded receipt body.
    pub raw: String,
}

/// A value of the receipt dict.
#[derive(Debug, PartialEq)]
pub enum ReceiptValue {
    Text(String),
    Int(u8),
}

// ── Keys ─────────────────────────────────────────────────────────────────

/// The canonical receipt keys, by number.
pub open spec fn key_name(k: int) -> Seq<char> {
    if k == 0 {
        "submit date"@
    } else if k == 1 {
        "done date"@
    } else if k == 2 {
        "dlvrd"@
    } else if k == 3 {
        "stat"@
    } else if k == 4 {
        "text"@
    } else if k == 5 {
        "sub"@
    } else if k == 6 {
        "err"@
    } else {
        "id"@
    }
}

/// How many keys there are.
pub open spec fn key_count() -> int {
    8
}

/// The canonical receipt keys, by number.
fn key_text(k: usize) -> (r: &'static str)
    requires
        k < 8,
    ensures
        r@ == key_name(k as int),
{
    match k {
        0 => "submit date",
        1 => "done date",
        2 => "dlvrd",
        3 => "stat",
        4 => "text",
        5 => "sub",
        6 => "err",
        _ => "id",
    }
}

/// A body as it is searched: in small letters.
pub open spec fn lowered(raw: Seq<char>) -> Seq<char> {
    raw.map_values(|c: char| text::ascii_lower(c))
}

/// A key as it stands in a body: with its colon.
pub open spec fn needle(k: int) -> Seq<char> {
    key_name(k) + ":"@
}

/// Where key `k` first stands in the body, in whatever case.
pub open spec fn hit(raw: Seq<char>, k: int) -> Option<int> {
    text::find(lowered(raw), needle(k))
}

/// The first position behind `p` at which one of the keys from `k` on has its
/// hit, or the end of the body.
pub open spec fn next_hit(raw: Seq<char>, p: int, k: int) -> int
    decreases key_count() - k,
{
    if k < 0 || k >= key_count() {
        raw.len() as int
    } else {
        match hit(raw, k) {
            Some(q) => if p < q && q < next_hit(raw, p, k + 1) {
                q
            } else {
                next_hit(raw, p, k + 1)
            },
            None => next_hit(raw, p, k + 1),
        }
    }
}

/// The value of key `k`: what stands between the key and the next one, without
/// white space at the ends. That of `text` runs to the end of the body.
pub open spec fn field_text(raw: Seq<char>, k: int) -> Option<Seq<char>> {
    match hit(raw, k) {
        None => None,
        Some(p) => {
            let end = if k == 4 {
                raw.len() as int
            } else {
                next_hit(raw, p, 0)
            };
            Some(text::trimmed(raw.subrange(p + needle(k).len(), end)))
        },
    }
}

/// Whether a body has any of the keys.
pub open spec fn is_receipt(raw: Seq<char>) -> bool {
    exists|k: int| 0 <= k < key_count() && (#[trigger] hit(raw, k)) is Some
}

// ── No two keys overlap ──────────────────────────────────────────────────

proof fn key_facts(k: int)
    requires
        0 <= k < key_count(),
    ensures
        2 <= key_name(k).len(),
        k < 2 ==> key_name(k).len() >= 6,
        forall|t: int| 0 <= t < key_name(k).len() ==> #[trigger] key_name(k)[t] != ':',
        needle(k).len() == key_name(k).len() + 1,
        needle(k).last() == ':',
        key_name(k)[key_name(k).len() - 1] as int * 0x100 + key_name(k)[key_name(k).len() - 2] as int
            == key_mark(k),
        k < 2 ==> key_name(k)[key_name(k).len() - 6] == (if k == 0 { 't' } else { 'e' }),
{
    reveal_strlit(":");
    if k == 0 {
        reveal_strlit("submit date");
    } else if k == 1 {
        reveal_strlit("done date");
    } else if k == 2 {
        reveal_strlit("dlvrd");
    } else if k == 3 {
        reveal_strlit("stat");
    } else if k == 4 {
        reveal_strlit("text");
    } else if k == 5 {
        reveal_strlit("sub");
    } else if k == 6 {
        reveal_strlit("err");
    } else {
        reveal_strlit("id");
    }
}

/// The last two letters of a key.
spec fn key_mark(k: int) -> int {
    if k < 2 {
        'e' as int * 0x100 + 't' as int
    } else if k == 2 {
        'd' as int * 0x100 + 'r' as int
    } else if k == 3 {
        't' as int * 0x100 + 'a' as int
    } else if k == 4 {
        't' as int * 0x100 + 'x' as int
    } else if k == 5 {
        'b' as int * 0x100 + 'u' as int
    } else if k == 6 {
        'r' as int * 0x100 + 'r' as int
    } else {
        'd' as int * 0x100 + 'i' as int
    }
}

/// Where two keys stand in a text, the one ends before the other begins.
proof fn keys_do_not_overlap(hay: Seq<char>, i: int, j: int, p: int, q: int)
    requires
        0 <= i < key_count(),
        0 <= j < key_count(),
        i != j,
        text::stands_at(hay, needle(i), p),
        text::stands_at(hay, needle(j), q),
        p <= q,
    ensures
        p + needle(i).len() <= q,
{
    key_facts(i);
    key_facts(j);
    let a = needle(i);
    let b = needle(j);
    let m = a.len() as int;
    let n = b.len() as int;
    assert forall|t: int| 0 <= t < m implies hay[p + t] == #[trigger] a[t] by {
        assert(hay.subrange(p, p + m)[t] == a[t]);
    }
    assert forall|t: int| 0 <= t < n implies hay[q + t] == #[trigger] b[t] by {
        assert(hay.subrange(q, q + n)[t] == b[t]);
    }
    if q < p + m {
        assert(a[m - 1] == ':' && b[n - 1] == ':');
        if p + m < q + n {
            assert(b[p + m - 1 - q] == key_name(j)[p + m - 1 - q]);
        } else if q + n < p + m {
            assert(a[q + n - 1 - p] == key_name(i)[q + n - 1 - p]);
        } else {
            assert(a[m - 2] == key_name(i)[m - 2] && b[n - 2] == key_name(j)[n - 2]);
            assert(a[m - 3] == key_name(i)[m - 3] && b[n - 3] == key_name(j)[n - 3]);
            assert(hay[p + (m - 2)] == hay[q + (n - 2)]);
            assert(hay[p + (m - 3)] == hay[q + (n - 3)]);
            assert(key_mark(i) == key_mark(j));
            assert(a[m - 7] == key_name(i)[m - 7] && b[n - 7] == key_name(j)[n - 7]);
            assert(hay[p + (m - 7)] == hay[q + (n - 7)]);
        }
    }
}

/// The next hit lies behind the key, inside the body.
proof fn next_hit_is_behind(raw: Seq<char>, i: int, k: int)
    requires
        0 <= i < key_count(),
        0 <= k <= key_count(),
        hit(raw, i) is Some,
    ensures
        hit(raw, i)->0 + needle(i).len() <= next_hit(raw, hit(raw, i)->0, k) <= raw.len(),
    decreases key_count() - k,
{
    let p = hit(raw, i)->0;
    text::find_from_is_first(lowered(raw), needle(i), 0);
    if k < key_count() {
        next_hit_is_behind(raw, i, k + 1);
        if let Some(q) = hit(raw, k) {
            text::find_from_is_first(lowered(raw), needle(k), 0);
            if p < q && k != i {
                keys_do_not_overlap(lowered(raw), i, k, p, q);
            }
        }
    }
}

// ── Parsing ──────────────────────────────────────────────────────────────

/// Whether `hits` are the hits of the keys in the body.
spec fn are_hits(hits: Seq<Option<usize>>, raw: Seq<char>) -> bool {
    &&& hits.len() == key_count()
    &&& forall|k: int|
        0 <= k < key_count() ==> match #[trigger] hits[k] {
            Some(p) => hit(raw, k) == Some(p as int),
            None => hit(raw, k) is None,
        }
}

/// The body in small letters.
fn lower_all(chars: &Vec<char>) -> (out: Vec<char>)
    ensures
        out@ == lowered(chars@),
{
    let mut out: Vec<char> = Vec::new();
    let mut i: usize = 0;
    while i < chars.len()
        invariant
            i <= chars@.len(),
            out@ == lowered(chars@.take(i as int)),
        decreases chars@.len() - i,
    {
        out.push(chars[i].to_ascii_lowercase());
        i = i + 1;
        assert(out@ =~= lowered(chars@.take(i as int)));
    }
    assert(chars@.take(i as int) =~= chars@);
    out
}

/// Where each key first stands in the body.
fn find_hits(chars: &Vec<char>) -> (hits: Vec<Option<usize>>)
    ensures
        are_hits(hits@, chars@),
{
    let hay: Vec<char> = lower_all(chars);
    let mut hits: Vec<Option<usize>> = Vec::new();
    let mut k: usize = 0;
    while k < 8
        invariant
            k <= 8,
            hay@ == lowered(chars@),
            hits@.len() == k,
            forall|j: int|
                0 <= j < k ==> match #[trigger] hits@[j] {
                    Some(p) => hit(chars@, j) == Some(p as int),
                    None => hit(chars@, j) is None,
                },
        decreases 8 - k,
    {
        let mut key: String = key_text(k).to_owned();
        key.append(":");
        let wanted: Vec<char> = text::chars_of(key.as_str());
        hits.push(text::position_from(&hay, &wanted, 0));
        k = k + 1;
    }
    hits
}

/// The value of key `k`.
fn field_of(chars: &Vec<char>, hits: &Vec<Option<usize>>, k: usize) -> (r: Option<String>)
    requires
        k < 8,
        are_hits(hits@, chars@),
    ensures
        text::holds(r, field_text(chars@, k as int)),
{
    let p: usize = match hits[k] {
        Some(p) => p,
        None => {
            return None;
        },
    };
    let n: usize = chars.len();
    let mut end: usize = n;
    if k != 4 {
        let mut j: usize = 8;
        while j > 0
            invariant
                j <= 8,
                n == chars@.len(),
                are_hits(hits@, chars@),
                end == next_hit(chars@, p as int, j as int),
                end <= n,
            decreases j,
        {
            j = j - 1;
            if let Some(q) = hits[j] {
                if p < q && q < end {
                    end = q;
                }
            }
        }
    }
    let size: usize = text::chars_of(key_text(k)).len();
    proof {
        key_facts(k as int);
        next_hit_is_behind(chars@, k as int, 0);
        text::find_from_is_first(lowered(chars@), needle(k as int), 0);
    }
    Some(text::trim_range(chars, p + size + 1, end))
}

impl Receipt {
    /// Whether the receipt holds what the body `raw` says.
    pub open spec fn reads(self, raw: Seq<char>) -> bool {
        &&& self.raw@ == raw
        &&& text::holds(self.submit_date, field_text(raw, 0))
        &&& text::holds(self.done_date, field_text(raw, 1))
        &&& text::holds(self.dlvrd, field_text(raw, 2))
        &&& text::holds(self.stat, field_text(raw, 3))
        &&& text::holds(self.text, field_text(raw, 4))
        &&& text::holds(self.sub, field_text(raw, 5))
        &&& text::holds(self.err, field_text(raw, 6))
        &&& text::holds(self.id, field_text(raw, 7))
        &&& self.message_state is None
    }

    /// Parse a receipt body; nothing where it has none of the keys.
    pub fn parse(sm: &[u8]) -> (r: Option<Receipt>)
        ensures
            match r {
                Some(receipt) => is_receipt(text::lossy_text(sm@)) && receipt.reads(
                    text::lossy_text(sm@),
                ),
                None => !is_receipt(text::lossy_text(sm@)),
            },
    {
        Receipt::parse_text(text::from_utf8_lossy(sm))
    }

    /// Parse a receipt body that has been read as text.
    pub fn parse_text(raw: String) -> (r: Option<Receipt>)
        ensures
            match r {
                Some(receipt) => is_receipt(raw@) && receipt.reads(raw@),
                None => !is_receipt(raw@),
            },
    {
        let chars: Vec<char> = text::chars_of(raw.as_str());
        let hits: Vec<Option<usize>> = find_hits(&chars);
        let mut k: usize = 0;
        while k < 8 && hits[k].is_none()
            invariant
                k <= 8,
                are_hits(hits@, chars@),
                forall|j: int| 0 <= j < k ==> (#[trigger] hit(chars@, j)) is None,
            decreases 8 - k,
        {
            assert(hits@[k as int] is None);
            k = k + 1;
        }
        if k == 8 {
            return None;
        }
        assert(hits@[k as int] is Some);
        assert(hit(chars@, k as int) is Some);
        Some(
            Receipt {
                submit_date: field_of(&chars, &hits, 0),
                done_date: field_of(&chars, &hits, 1),
                dlvrd: field_of(&chars, &hits, 2),
                stat: field_of(&chars, &hits, 3),
                text: field_of(&chars, &hits, 4),
                sub: field_of(&chars, &hits, 5),
                err: field_of(&chars, &hits, 6),
                id: field_of(&chars, &hits, 7),
                message_state: None,
                raw,
            },
        )
    }
}

/// The status word of a message state.
pub open spec fn state_word(state: u8) -> Option<Seq<char>> {
    match state {
        1 => Some("ENROUTE"@),
        2 => Some("DELIVRD"@),
        3 => Some("EXPIRED"@),
        4 => Some("DELETED"@),
        5 => Some("UNDELIV"@),
        6 => Some("ACCEPTD"@),
        7 => Some("UNKNOWN"@),
        8 => Some("REJECTD"@),
        _ => None,
    }
}

/// The status word of a message state.
pub fn state_text(state: u8) -> (r: Option<String>)
    ensures
        text::holds(r, state_word(state)),
{
    match state {
        1 => Some("ENROUTE".to_owned()),
        2 => Some("DELIVRD".to_owned()),
        3 => Some("EXPIRED".to_owned()),
        4 => Some("DELETED".to_owned()),
        5 => Some("UNDELIV".to_owned()),
        6 => Some("ACCEPTD".to_owned()),
        7 => Some("UNKNOWN".to_owned()),
        8 => Some("REJECTD".to_owned()),
        _ => None,
    }
}

/// The status word that a `message_state` parameter stands for.
pub open spec fn stated(state: Option<u8>) -> Option<Seq<char>> {
    match state {
        Some(n) => state_word(n),
        None => None,
    }
}

/// The first of two texts that is there.
pub open spec fn either(a: Option<Seq<char>>, b: Option<Seq<char>>) -> Option<Seq<char>> {
    if a is Some {
        a
    } else {
        b
    }
}

impl Receipt {
    /// Whether the receipt holds what the body `raw` says, with the id and the
    /// status of the optional parameters where the body has none, and the state
    /// code as it is.
    pub open spec fn fills(
        self,
        raw: Seq<char>,
        id: Option<Seq<char>>,
        state: Option<u8>,
    ) -> bool {
        &&& self.raw@ == raw
        &&& text::holds(self.submit_date, field_text(raw, 0))
        &&& text::holds(self.done_date, field_text(raw, 1))
        &&& text::holds(self.dlvrd, field_text(raw, 2))
        &&& text::holds(self.stat, either(field_text(raw, 3), stated(state)))
        &&& text::holds(self.text, field_text(raw, 4))
        &&& text::holds(self.sub, field_text(raw, 5))
        &&& text::holds(self.err, field_text(raw, 6))
        &&& text::holds(self.id, either(field_text(raw, 7), id))
        &&& self.message_state == state
    }

    /// The entries of the receipt dict, those that there are.
    pub open spec fn entries(self) -> Seq<(Seq<char>, ReceiptValue)> {
        text_entry("id"@, self.id) + text_entry("sub"@, self.sub) + text_entry(
            "dlvrd"@,
            self.dlvrd,
        ) + text_entry("submit_date"@, self.submit_date) + text_entry("done_date"@, self.done_date)
            + text_entry("stat"@, self.stat) + text_entry("err"@, self.err) + text_entry(
            "text"@,
            self.text,
        ) + match self.message_state {
            Some(n) => seq![("message_state"@, ReceiptValue::Int(n))],
            None => Seq::empty(),
        } + seq![("raw"@, ReceiptValue::Text(self.raw))]
    }

    /// The receipt as a dict: the keys that are there, and `raw`.
    pub fn fill_dict(&self) -> (out: Vec<(&'static str, ReceiptValue)>)
        ensures
            shown(out@) == self.entries(),
    {
        let mut out: Vec<(&'static str, ReceiptValue)> = Vec::new();
        assert(shown(out@) =~= Seq::empty());
        put(&mut out, "id", &self.id);
        put(&mut out, "sub", &self.sub);
        put(&mut out, "dlvrd", &self.dlvrd);
        put(&mut out, "submit_date", &self.submit_date);
        put(&mut out, "done_date", &self.done_date);
        put(&mut out, "stat", &self.stat);
        put(&mut out, "err", &self.err);
        put(&mut out, "text", &self.text);
        let ghost was = out@;
        if let Some(n) = self.message_state {
            out.push(("message_state", ReceiptValue::Int(n)));
            assert(shown(out@) =~= shown(was) + seq![("message_state"@, ReceiptValue::Int(n))]);
        }
        let ghost was = out@;
        out.push(("raw", ReceiptValue::Text(self.raw.clone())));
        assert(shown(out@) =~= shown(was) + seq![("raw"@, ReceiptValue::Text(self.raw))]);
        assert(shown(out@) =~= self.entries());
        out
    }
}

/// The entry of an optional text.
pub open spec fn text_entry(key: Seq<char>, v: Option<String>) -> Seq<(Seq<char>, ReceiptValue)> {
    match v {
        Some(s) => seq![(key, ReceiptValue::Text(s))],
        None => Seq::empty(),
    }
}

/// The entries of a dict.
pub open spec fn shown(d: Seq<(&'static str, ReceiptValue)>) -> Seq<(Seq<char>, ReceiptValue)> {
    d.map_values(|e: (&'static str, ReceiptValue)| (e.0@, e.1))
}

/// Adds the entry of an optional text.
fn put(out: &mut Vec<(&'static str, ReceiptValue)>, key: &'static str, v: &Option<String>)
    ensures
        shown(final(out)@) == shown(old(out)@) + text_entry(key@, *v),
{
    let ghost was = out@;
    match v {
        Some(s) => {
            out.push((key, ReceiptValue::Text(s.clone())));
            assert(shown(out@) =~= shown(was) + seq![(key@, ReceiptValue::Text(*s))]);
        },
        None => {
            assert(shown(out@) =~= shown(was) + Seq::empty());
        },
    }
}

/// The receipt of a body, with the id and the status of the optional parameters
/// in its gaps; nothing where neither says anything.
pub fn combine(raw: String, id: Option<String>, state: Option<u8>) -> (r: Option<Receipt>)
    ensures
        r is Some == (is_receipt(raw@) || id is Some || state is Some),
        r matches Some(x) ==> x.fills(
            raw@,
            match id {
                Some(s) => Some(s@),
                None => None,
            },
            state,
        ),
{
    let ghost body = raw@;
    let mut receipt: Receipt = match Receipt::parse_text(raw.clone()) {
        Some(receipt) => receipt,
        None => {
            if id.is_none() && state.is_none() {
                return None;
            }
            proof {
                no_receipt_no_fields(body);
            }
            Receipt {
                id: None,
                sub: None,
                dlvrd: None,
                submit_date: None,
                done_date: None,
                stat: None,
                err: None,
                text: None,
                message_state: None,
                raw,
            }
        },
    };
    if receipt.id.is_none() {
        receipt.id = id;
    }
    if receipt.stat.is_none() {
        receipt.stat = match state {
            Some(n) => state_text(n),
            None => None,
        };
    }
    receipt.message_state = state;
    Some(receipt)
}

proof fn no_receipt_no_fields(raw: Seq<char>)
    requires
        !is_receipt(raw),
    ensures
        forall|k: int| 0 <= k < key_count() ==> (#[trigger] field_text(raw, k)) is None,
{
    assert forall|k: int| 0 <= k < key_count() implies (#[trigger] field_text(raw, k)) is None by {
        assert(hit(raw, k) is None);
    }
}

// ── What is promised of receipts ─────────────────────────────────────────

/// Fields as an SMSC writes them: key, colon, value, and one space between two
/// of them.
pub open spec fn written(fields: Seq<(int, Seq<char>)>) -> Seq<char>
    decreases fields.len(),
{
    if fields.len() == 0 {
        Seq::empty()
    } else {
        written_before_last(fields) + needle(fields.last().0) + fields.last().1
    }
}

/// What stands before the last field.
pub open spec fn written_before_last(fields: Seq<(int, Seq<char>)>) -> Seq<char>
    decreases fields.len(), 0int
    when fields.len() > 0
{
    if fields.len() == 1 {
        Seq::empty()
    } else {
        written(fields.drop_last()).push(' ')
    }
}

/// Whether `fields` can be told apart once they are written: every key once,
/// none of them `text`, values without white space at the ends, and no key in
/// the body before the place where it is written.
pub open spec fn are_apart(fields: Seq<(int, Seq<char>)>) -> bool {
    &&& forall|i: int|
        0 <= i < fields.len() ==> {
            &&& 0 <= (#[trigger] fields[i]).0 < key_count()
            &&& fields[i].0 != 4
            &&& text::trimmed(fields[i].1) == fields[i].1
        }
    &&& forall|i: int, j: int|
        0 <= i < j < fields.len() ==> (#[trigger] fields[i]).0 != (#[trigger] fields[j]).0
    &&& forall|k: int, p: int|
        0 <= k < key_count() && #[trigger] text::stands_at(
            lowered(written(fields)),
            needle(k),
            p,
        ) ==> exists|i: int|
            0 <= i < fields.len() && fields[i].0 == k && #[trigger] start_of(fields, i) <= p
}

/// Whether every key of `fields` is there once, none of them `text`, and the
/// values have no colons and no white space at the ends.
pub open spec fn are_plain(fields: Seq<(int, Seq<char>)>) -> bool {
    &&& forall|i: int|
        0 <= i < fields.len() ==> {
            &&& 0 <= (#[trigger] fields[i]).0 < key_count()
            &&& fields[i].0 != 4
            &&& text::trimmed(fields[i].1) == fields[i].1
            &&& forall|t: int| 0 <= t < fields[i].1.len() ==> #[trigger] fields[i].1[t] != ':'
        }
    &&& forall|i: int, j: int|
        0 <= i < j < fields.len() ==> (#[trigger] fields[i]).0 != (#[trigger] fields[j]).0
}

/// Where field `i` begins.
pub open spec fn start_of(fields: Seq<(int, Seq<char>)>, i: int) -> int {
    written_before_last(fields.take(i + 1)).len() as int
}

proof fn plain_prefix(fields: Seq<(int, Seq<char>)>)
    requires
        are_plain(fields),
        fields.len() > 0,
    ensures
        are_plain(fields.drop_last()),
{
    let shorter = fields.drop_last();
    assert forall|i: int| 0 <= i < shorter.len() implies {
        &&& 0 <= (#[trigger] shorter[i]).0 < key_count()
        &&& shorter[i].0 != 4
        &&& text::trimmed(shorter[i].1) == shorter[i].1
        &&& forall|t: int| 0 <= t < shorter[i].1.len() ==> #[trigger] shorter[i].1[t] != ':'
    } by {
        assert(shorter[i] == fields[i]);
    }
    assert forall|i: int, j: int| 0 <= i < j < shorter.len() implies (#[trigger] shorter[i]).0 != (
    #[trigger] shorter[j]).0 by {
        assert(shorter[i] == fields[i] && shorter[j] == fields[j]);
    }
}

/// A field stands where it begins, whatever follows it.
proof fn field_stands(fields: Seq<(int, Seq<char>)>, i: int)
    requires
        0 <= i < fields.len(),
    ensures
        ({
            let s = start_of(fields, i);
            let n = needle(fields[i].0).len() as int;
            &&& 0 <= s
            &&& s + n + fields[i].1.len() <= written(fields).len()
            &&& written(fields).subrange(s, s + n) == needle(fields[i].0)
            &&& written(fields).subrange(s + n, s + n + fields[i].1.len()) == fields[i].1
            &&& i + 1 < fields.len() ==> start_of(fields, i + 1) == s + n + fields[i].1.len() + 1
                && written(fields)[s + n + fields[i].1.len()] == ' '
            &&& i + 1 == fields.len() ==> s + n + fields[i].1.len() == written(fields).len()
        }),
    decreases fields.len(),
{
    let whole = written(fields);
    let s = start_of(fields, i);
    let n = needle(fields[i].0).len() as int;
    assert(fields.take(fields.len() as int) =~= fields);
    if i == fields.len() - 1 {
        assert(whole.subrange(s, s + n) =~= needle(fields[i].0));
        assert(whole.subrange(s + n, s + n + fields[i].1.len()) =~= fields[i].1);
    } else {
        let shorter = fields.drop_last();
        field_stands(shorter, i);
        let part = written(shorter);
        assert(shorter.take(i + 1) =~= fields.take(i + 1));
        if i + 1 < shorter.len() {
            assert(shorter.take(i + 2) =~= fields.take(i + 2));
        } else {
            assert(fields.take(i + 2) =~= fields);
        }
        assert(written_before_last(fields) == part.push(' '));
        assert(whole.subrange(s, s + n) =~= part.subrange(s, s + n));
        assert(whole.subrange(s + n, s + n + fields[i].1.len()) =~= part.subrange(
            s + n,
            s + n + fields[i].1.len(),
        ));
    }
}

/// Among plain fields a colon stands only where a key ends.
proof fn colons_end_keys(fields: Seq<(int, Seq<char>)>, c: int)
    requires
        are_plain(fields),
        0 <= c < written(fields).len(),
        written(fields)[c] == ':',
    ensures
        exists|i: int|
            0 <= i < fields.len() && c == #[trigger] start_of(fields, i) + needle(fields[i].0).len()
                - 1,
    decreases fields.len(),
{
    let last = fields.len() - 1;
    let before = written_before_last(fields);
    let key = needle(fields[last].0);
    assert(fields.take(fields.len() as int) =~= fields);
    assert(start_of(fields, last) == before.len());
    key_facts(fields[last].0);
    if c < before.len() {
        let shorter = fields.drop_last();
        plain_prefix(fields);
        assert(written(fields)[c] == before[c]);
        assert(c < written(shorter).len());
        colons_end_keys(shorter, c);
        let i = choose|i: int|
            0 <= i < shorter.len() && c == #[trigger] start_of(shorter, i) + needle(
                shorter[i].0,
            ).len() - 1;
        assert(shorter.take(i + 1) =~= fields.take(i + 1));
        assert(start_of(fields, i) == start_of(shorter, i));
    } else if c < before.len() + key.len() {
        assert(written(fields)[c] == key[c - before.len()]);
        if c < before.len() + key.len() - 1 {
            assert(key[c - before.len()] == key_name(fields[last].0)[c - before.len()]);
        }
    } else {
        let t = c - before.len() - key.len();
        assert(written(fields)[c] == fields[last].1[t]);
    }
}

/// Lowering the case moves no colon and keeps the keys.
proof fn lowering_keeps_keys(raw: Seq<char>, k: int, p: int)
    requires
        0 <= k < key_count(),
        text::stands_at(raw, needle(k), p),
    ensures
        text::stands_at(lowered(raw), needle(k), p),
{
    key_is_small(k);
    let n = needle(k).len() as int;
    assert forall|t: int| 0 <= t < n implies lowered(raw).subrange(p, p + n)[t] == #[trigger] needle(
        k,
    )[t] by {
        assert(raw.subrange(p, p + n)[t] == needle(k)[t]);
    }
    assert(lowered(raw).subrange(p, p + n) =~= needle(k));
}

proof fn key_is_small(k: int)
    requires
        0 <= k < key_count(),
    ensures
        forall|t: int|
            0 <= t < needle(k).len() ==> text::ascii_lower(#[trigger] needle(k)[t]) == needle(k)[t],
{
    key_facts(k);
    if k == 0 {
        reveal_strlit("submit date");
    } else if k == 1 {
        reveal_strlit("done date");
    } else if k == 2 {
        reveal_strlit("dlvrd");
    } else if k == 3 {
        reveal_strlit("stat");
    } else if k == 4 {
        reveal_strlit("text");
    } else if k == 5 {
        reveal_strlit("sub");
    } else if k == 6 {
        reveal_strlit("err");
    } else {
        reveal_strlit("id");
    }
}

/// Fields whose values have no colons can be told apart.
pub proof fn plain_fields_are_apart(fields: Seq<(int, Seq<char>)>)
    requires
        are_plain(fields),
    ensures
        are_apart(fields),
{
    let raw = written(fields);
    assert forall|k: int, p: int|
        0 <= k < key_count() && #[trigger] text::stands_at(
            lowered(raw),
            needle(k),
            p,
        ) implies exists|i: int|
        0 <= i < fields.len() && fields[i].0 == k && #[trigger] start_of(fields, i) <= p by {
        let n = needle(k).len() as int;
        let c = p + n - 1;
        key_facts(k);
        assert(lowered(raw).subrange(p, p + n)[n - 1] == needle(k)[n - 1]);
        assert(raw[c] == ':');
        colons_end_keys(fields, c);
        let i = choose|i: int|
            0 <= i < fields.len() && c == #[trigger] start_of(fields, i) + needle(
                fields[i].0,
            ).len() - 1;
        field_stands(fields, i);
        let q = start_of(fields, i);
        lowering_keeps_keys(raw, fields[i].0, q);
        key_facts(fields[i].0);
        if fields[i].0 != k {
            if p <= q {
                keys_do_not_overlap(lowered(raw), k, fields[i].0, p, q);
            } else {
                keys_do_not_overlap(lowered(raw), fields[i].0, k, q, p);
            }
        }
        assert(start_of(fields, i) <= p);
    }
}

/// Whatever follows the fields, no key ends before their end but at or behind
/// the place where it is written.
proof fn no_stray_key(fields: Seq<(int, Seq<char>)>, rest: Seq<char>, k: int, p: int)
    requires
        are_apart(fields),
        0 <= k < key_count(),
        text::stands_at(lowered(written(fields) + rest), needle(k), p),
        p + needle(k).len() <= written(fields).len(),
    ensures
        exists|i: int|
            0 <= i < fields.len() && fields[i].0 == k && #[trigger] start_of(fields, i) <= p,
{
    let raw = written(fields) + rest;
    let n = needle(k).len() as int;
    assert(lowered(written(fields)).subrange(p, p + n) =~= lowered(raw).subrange(p, p + n));
    assert(text::stands_at(lowered(written(fields)), needle(k), p));
}

/// A key is hit where it is written.
proof fn written_key_is_hit(fields: Seq<(int, Seq<char>)>, rest: Seq<char>, i: int)
    requires
        are_apart(fields),
        0 <= i < fields.len(),
    ensures
        hit(written(fields) + rest, fields[i].0) == Some(start_of(fields, i)),
{
    let raw = written(fields) + rest;
    let k = fields[i].0;
    let s = start_of(fields, i);
    let n = needle(k).len() as int;
    field_stands(fields, i);
    assert(raw.subrange(s, s + n) =~= written(fields).subrange(s, s + n));
    lowering_keeps_keys(raw, k, s);
    text::find_from_is_first(lowered(raw), needle(k), 0);
    let p = hit(raw, k)->0;
    if p < s {
        no_stray_key(fields, rest, k, p);
        let j = choose|j: int|
            0 <= j < fields.len() && fields[j].0 == k && #[trigger] start_of(fields, j) <= p;
        if j < i {
            assert(fields[j].0 != fields[i].0);
        } else if j > i {
            assert(fields[i].0 != fields[j].0);
        }
    }
}

/// The next hit is the least position of a hit behind `p`.
proof fn next_hit_is_least(raw: Seq<char>, p: int, e: int, k: int)
    requires
        0 <= k <= key_count(),
        p < e <= raw.len(),
        forall|j: int|
            k <= j < key_count() ==> match #[trigger] hit(raw, j) {
                Some(q) => q <= p || e <= q,
                None => true,
            },
    ensures
        e <= next_hit(raw, p, k),
        (e == raw.len() || exists|j: int|
            k <= j < key_count() && #[trigger] hit(raw, j) == Some(e)) ==> next_hit(raw, p, k) == e,
    decreases key_count() - k,
{
    next_hit_is_inside(raw, p, k);
    if k < key_count() {
        next_hit_is_least(raw, p, e, k + 1);
        next_hit_is_inside(raw, p, k + 1);
        assert(hit(raw, k) matches Some(q) ==> q <= p || e <= q);
    }
}

proof fn next_hit_is_inside(raw: Seq<char>, p: int, k: int)
    requires
        0 <= k <= key_count(),
    ensures
        next_hit(raw, p, k) <= raw.len(),
    decreases key_count() - k,
{
    if k < key_count() {
        next_hit_is_inside(raw, p, k + 1);
    }
}

/// Starts lie in the order of the fields.
proof fn starts_ascend(fields: Seq<(int, Seq<char>)>, i: int, j: int)
    requires
        are_apart(fields),
        0 <= i < j < fields.len(),
    ensures
        start_of(fields, i) < start_of(fields, j),
        start_of(fields, i + 1) <= start_of(fields, j),
    decreases j - i,
{
    field_stands(fields, i);
    if i + 1 < j {
        starts_ascend(fields, i + 1, j);
    }
}

/// Where only hits of written keys lie before `end`, a field reads back, in
/// whatever case the body is written.
proof fn field_reads_back(
    fields: Seq<(int, Seq<char>)>,
    rest: Seq<char>,
    end: int,
    i: int,
    body: Seq<char>,
)
    requires
        are_apart(fields),
        are_alike(body, written(fields) + rest),
        0 <= i < fields.len(),
        ({
            let raw = written(fields) + rest;
            &&& written(fields).len() <= end <= raw.len()
            &&& forall|t: int| written(fields).len() <= t < end ==> raw[t] == ' '
            &&& end == raw.len() || exists|j: int|
                0 <= j < key_count() && #[trigger] hit(raw, j) == Some(end)
            &&& forall|j: int|
                0 <= j < key_count() ==> match #[trigger] hit(raw, j) {
                    Some(q) => end <= q || exists|f: int|
                        0 <= f < fields.len() && #[trigger] start_of(fields, f) == q,
                    None => true,
                }
        }),
    ensures
        ({
            let from = start_of(fields, i) + needle(fields[i].0).len();
            field_text(body, fields[i].0) == Some(body.subrange(from, from + fields[i].1.len()))
        }),
{
    let raw = written(fields) + rest;
    let k = fields[i].0;
    alike_is_searched_alike(body, raw);
    let value = fields[i].1;
    let s = start_of(fields, i);
    let n = needle(k).len() as int;
    written_key_is_hit(fields, rest, i);
    field_stands(fields, i);
    key_facts(k);
    let e = if i + 1 < fields.len() {
        start_of(fields, i + 1)
    } else {
        end
    };
    if i + 1 < fields.len() {
        written_key_is_hit(fields, rest, i + 1);
        field_stands(fields, i + 1);
        assert(0 <= fields[i + 1].0 < key_count());
    }
    assert forall|j: int| 0 <= j < key_count() implies match #[trigger] hit(raw, j) {
        Some(q) => q <= s || e <= q,
        None => true,
    } by {
        if let Some(q) = hit(raw, j) {
            if q < end {
                let f = choose|f: int|
                    0 <= f < fields.len() && #[trigger] start_of(fields, f) == q;
                if f < i {
                    starts_ascend(fields, f, i);
                } else if f > i {
                    starts_ascend(fields, i, f);
                }
            }
        }
    }
    next_hit_is_least(raw, s, e, 0);
    next_hit_is_alike(body, raw, s, 0);
    let found = body.subrange(s + n, e);
    let said = body.subrange(s + n, s + n + value.len());
    let gap = Seq::new((e - s - n - value.len()) as nat, |t: int| ' ');
    assert forall|t: int| 0 <= t < value.len() implies text::is_space(#[trigger] value[t])
        == text::is_space(said[t]) by {
        assert(written(fields).subrange(s + n, s + n + value.len())[t] == value[t]);
        assert(raw[s + n + t] == value[t]);
        assert(text::ascii_lower(body[s + n + t]) == text::ascii_lower(raw[s + n + t]));
    }
    assert(found =~= said + gap) by {
        assert forall|t: int| 0 <= t < found.len() implies found[t] == (said + gap)[t] by {
            if t >= value.len() {
                assert(raw[s + n + t] == ' ');
                assert(text::ascii_lower(body[s + n + t]) == text::ascii_lower(raw[s + n + t]));
            }
        }
    }
    let (a, b) = text::texts_alike_are_trimmed_alike(value, said);
    assert(a == 0 && b == value.len());
    assert(text::trimmed(said) =~= said);
    trimmed_with_gap(said, gap);
}

/// Whether two bodies differ in the case of letters at most.
pub open spec fn are_alike(a: Seq<char>, b: Seq<char>) -> bool {
    &&& a.len() == b.len()
    &&& forall|i: int|
        0 <= i < a.len() ==> text::ascii_lower(#[trigger] a[i]) == text::ascii_lower(b[i])
}

proof fn alike_is_searched_alike(a: Seq<char>, b: Seq<char>)
    requires
        are_alike(a, b),
    ensures
        lowered(a) == lowered(b),
        forall|k: int| #[trigger] hit(a, k) == hit(b, k),
{
    assert(lowered(a) =~= lowered(b));
}

proof fn next_hit_is_alike(a: Seq<char>, b: Seq<char>, p: int, k: int)
    requires
        are_alike(a, b),
        0 <= k <= key_count(),
    ensures
        next_hit(a, p, k) == next_hit(b, p, k),
    decreases key_count() - k,
{
    alike_is_searched_alike(a, b);
    if k < key_count() {
        next_hit_is_alike(a, b, p, k + 1);
    }
}

/// A value that has nothing to trim is what trimming leaves of it and spaces
/// behind it.
proof fn trimmed_with_gap(value: Seq<char>, gap: Seq<char>)
    requires
        text::trimmed(value) == value,
        forall|t: int| 0 <= t < gap.len() ==> text::is_space(#[trigger] gap[t]),
    ensures
        text::trimmed(value + gap) == value,
{
    if value.len() == 0 {
        assert(value + gap =~= gap);
        spaces_trim_away(gap);
        assert(value =~= Seq::empty());
    } else {
        trimmed_has_no_ends(value);
        assert(Seq::<char>::empty() + value + gap =~= value + gap);
        text::trimming_keeps_what_is_inside(Seq::empty(), value, gap);
    }
}

proof fn spaces_trim_away(gap: Seq<char>)
    requires
        forall|t: int| 0 <= t < gap.len() ==> text::is_space(#[trigger] gap[t]),
    ensures
        text::trimmed(gap) == Seq::<char>::empty(),
    decreases gap.len(),
{
    if gap.len() > 0 {
        let rest = gap.skip(1);
        assert forall|t: int| 0 <= t < rest.len() implies text::is_space(#[trigger] rest[t]) by {
            assert(rest[t] == gap[t + 1]);
        }
        spaces_trim_away(rest);
    } else {
        assert(gap =~= Seq::empty());
    }
}

/// Trimming shortens what has white space at an end.
proof fn trimmed_has_no_ends(value: Seq<char>)
    requires
        value.len() > 0,
        text::trimmed(value) == value,
    ensures
        !text::is_space(value[0]),
        !text::is_space(value.last()),
{
    trim_start_shortens(value);
    trim_end_shortens(text::trim_start(value));
    if text::is_space(value[0]) {
        trim_start_shortens(value.skip(1));
    }
    assert(text::trim_start(value) == value);
    if text::is_space(value.last()) {
        trim_end_shortens(value.drop_last());
    }
}

proof fn trim_start_shortens(s: Seq<char>)
    ensures
        text::trim_start(s).len() <= s.len(),
    decreases s.len(),
{
    if s.len() > 0 && text::is_space(s[0]) {
        trim_start_shortens(s.skip(1));
    }
}

proof fn trim_end_shortens(s: Seq<char>)
    ensures
        text::trim_end(s).len() <= s.len(),
    decreases s.len(),
{
    if s.len() > 0 && text::is_space(s.last()) {
        trim_end_shortens(s.drop_last());
    }
}

/// What an SMSC writes field by field, in whatever order and with whatever keys
/// missing, is read back field by field, and a key that is not written is not
/// found.
pub proof fn written_fields_read_back(fields: Seq<(int, Seq<char>)>, k: int)
    requires
        are_apart(fields),
        0 <= k < key_count(),
    ensures
        forall|i: int|
            0 <= i < fields.len() ==> field_text(written(fields), (#[trigger] fields[i]).0) == Some(
                fields[i].1,
            ),
        (forall|i: int| 0 <= i < fields.len() ==> (#[trigger] fields[i]).0 != k) ==> field_text(
            written(fields),
            k,
        ) is None,
{
    let raw = written(fields);
    let rest = Seq::<char>::empty();
    assert(raw + rest =~= raw);
    assert forall|j: int| 0 <= j < key_count() implies match #[trigger] hit(raw, j) {
        Some(q) => exists|f: int|
            0 <= f < fields.len() && fields[f].0 == j && #[trigger] start_of(fields, f) == q,
        None => true,
    } by {
        text::find_from_is_first(lowered(raw), needle(j), 0);
        if let Some(q) = hit(raw, j) {
            no_stray_key(fields, rest, j, q);
            let f = choose|f: int|
                0 <= f < fields.len() && fields[f].0 == j && #[trigger] start_of(fields, f) <= q;
            written_key_is_hit(fields, rest, f);
            assert(start_of(fields, f) == q);
        }
    }
    assert forall|i: int| 0 <= i < fields.len() implies field_text(
        raw,
        (#[trigger] fields[i]).0,
    ) == Some(fields[i].1) by {
        field_reads_back(fields, rest, raw.len() as int, i, raw);
        field_stands(fields, i);
    }
}

/// What an SMSC writes field by field with the text of the message at the end is
/// read back field by field, and the text whole, whatever it says.
pub proof fn written_text_reads_back(fields: Seq<(int, Seq<char>)>, message: Seq<char>)
    requires
        are_apart(fields),
        fields.len() > 0,
    ensures
        ({
            let raw = written(fields) + " text:"@ + message;
            &&& forall|i: int|
                0 <= i < fields.len() ==> field_text(raw, (#[trigger] fields[i]).0) == Some(
                    fields[i].1,
                )
            &&& field_text(raw, 4) == Some(text::trimmed(message))
        }),
{
    let raw = written(fields) + " text:"@ + message;
    keys_are_read_in_whatever_case(fields, message, raw);
    assert forall|i: int| 0 <= i < fields.len() implies field_text(
        raw,
        (#[trigger] fields[i]).0,
    ) == Some(fields[i].1) by {
        field_stands(fields, i);
        let from = start_of(fields, i) + needle(fields[i].0).len();
        assert(raw.subrange(from, from + fields[i].1.len()) =~= written(fields).subrange(
            from,
            from + fields[i].1.len(),
        ));
    }
    reveal_strlit(" text:");
    assert(raw.skip(written(fields).len() as int + 6) =~= message);
}

/// The same where the keys are written in whatever case, that of the closing
/// text too: each field is read from where it stands, and the text to the end.
pub proof fn keys_are_read_in_whatever_case(
    fields: Seq<(int, Seq<char>)>,
    message: Seq<char>,
    body: Seq<char>,
)
    requires
        are_apart(fields),
        fields.len() > 0,
        are_alike(body, written(fields) + " text:"@ + message),
    ensures
        forall|i: int|
            0 <= i < fields.len() ==> field_text(body, (#[trigger] fields[i]).0) == Some(
                body.subrange(
                    start_of(fields, i) + needle(fields[i].0).len(),
                    start_of(fields, i) + needle(fields[i].0).len() + fields[i].1.len(),
                ),
            ),
        field_text(body, 4) == Some(text::trimmed(body.skip(written(fields).len() as int + 6))),
{
    reveal_strlit(" text:");
    reveal_strlit("text");
    reveal_strlit(":");
    let head = written(fields);
    let rest = " text:"@ + message;
    let raw = head + " text:"@ + message;
    let end = head.len() as int + 1;
    assert(raw =~= head + rest);
    assert(raw.subrange(end, end + 5) =~= needle(4));
    assert(rest.subrange(0, 6) =~= " text:"@);
    lowering_keeps_keys(raw, 4, end);
    assert forall|j: int| 0 <= j < key_count() implies match #[trigger] hit(raw, j) {
        Some(q) => end <= q || exists|f: int|
            0 <= f < fields.len() && #[trigger] start_of(fields, f) == q,
        None => true,
    } by {
        text::find_from_is_first(lowered(raw), needle(j), 0);
        if let Some(q) = hit(raw, j) {
            if q < end {
                key_facts(j);
                if j != 4 {
                    keys_do_not_overlap(lowered(raw), j, 4, q, end);
                    assert(lowered(raw)[end - 1] == ' ');
                    if q + needle(j).len() == end {
                        assert(lowered(raw).subrange(q, q + needle(j).len())[needle(j).len() - 1]
                            == needle(j).last());
                    }
                    no_stray_key(fields, rest, j, q);
                    let f = choose|f: int|
                        0 <= f < fields.len() && fields[f].0 == j && #[trigger] start_of(fields, f)
                            <= q;
                    written_key_is_hit(fields, rest, f);
                    assert(start_of(fields, f) == q);
                } else {
                    text_is_not_hit_early(fields, rest, q);
                }
            }
        }
    }
    text::find_from_is_first(lowered(raw), needle(4), 0);
    assert(hit(raw, 4) == Some(end)) by {
        let q = hit(raw, 4)->0;
        if q < end {
            key_facts(4);
            text_is_not_hit_early(fields, rest, q);
        }
    }
    assert forall|i: int| 0 <= i < fields.len() implies field_text(
        body,
        (#[trigger] fields[i]).0,
    ) == Some(
        body.subrange(
            start_of(fields, i) + needle(fields[i].0).len(),
            start_of(fields, i) + needle(fields[i].0).len() + fields[i].1.len(),
        ),
    ) by {
        field_reads_back(fields, rest, end, i, body);
    }
    alike_is_searched_alike(body, raw);
    assert(body.subrange(end + 5, body.len() as int) =~= body.skip(head.len() as int + 6));
}

/// `text:` does not stand before the place where it is written.
proof fn text_is_not_hit_early(fields: Seq<(int, Seq<char>)>, rest: Seq<char>, q: int)
    requires
        are_apart(fields),
        rest.len() >= 6,
        rest.subrange(0, 6) == " text:"@,
        0 <= q <= written(fields).len(),
    ensures
        !text::stands_at(lowered(written(fields) + rest), needle(4), q),
{
    reveal_strlit(" text:");
    reveal_strlit("text");
    reveal_strlit(":");
    let raw = written(fields) + rest;
    let hay = lowered(raw);
    let h = written(fields).len() as int;
    if text::stands_at(hay, needle(4), q) {
        assert forall|t: int| 0 <= t < 5 implies hay[q + t] == #[trigger] needle(4)[t] by {
            assert(hay.subrange(q, q + 5)[t] == needle(4)[t]);
        }
        assert(rest.subrange(0, 6)[0] == " text:"@[0]);
        if q + 5 <= h {
            no_stray_key(fields, rest, 4, q);
        } else {
            assert(" text:"@[0] == ' ');
            assert(rest.subrange(0, 6)[0] == rest[0]);
            assert(rest[0] == ' ');
            assert(raw[h] == rest[0]);
            assert(hay[h] == ' ');
            assert(needle(4)[h - q] == hay[q + (h - q)]);
        }
    }
}

/// The case of letters decides nothing: of two bodies that differ in it at most,
/// each key has a value in the one exactly where it has one in the other, and the
/// two values stand in the same place.
pub proof fn the_case_of_a_body_decides_nothing(a: Seq<char>, b: Seq<char>, k: int)
    requires
        0 <= k < key_count(),
        a.len() == b.len(),
        forall|i: int|
            0 <= i < a.len() ==> text::ascii_lower(#[trigger] a[i]) == text::ascii_lower(b[i]),
    ensures
        is_receipt(a) == is_receipt(b),
        field_text(a, k) is Some == field_text(b, k) is Some,
        field_text(a, k) is Some ==> exists|from: int, to: int|
            0 <= from <= to <= a.len() && field_text(a, k) == Some(#[trigger] a.subrange(from, to))
                && field_text(b, k) == Some(b.subrange(from, to)),
{
    assert(are_alike(a, b));
    alike_is_searched_alike(a, b);
    if is_receipt(a) {
        let j = choose|j: int| 0 <= j < key_count() && (#[trigger] hit(a, j)) is Some;
        assert(hit(b, j) is Some);
    }
    if is_receipt(b) {
        let j = choose|j: int| 0 <= j < key_count() && (#[trigger] hit(b, j)) is Some;
        assert(hit(a, j) is Some);
    }
    if let Some(p) = hit(a, k) {
        assert(hit(b, k) == Some(p));
        next_hit_is_alike(a, b, p, 0);
        next_hit_is_behind(a, k, 0);
        text::find_from_is_first(lowered(a), needle(k), 0);
        let n = p + needle(k).len();
        let end = if k == 4 {
            a.len() as int
        } else {
            next_hit(a, p, 0)
        };
        let x = a.subrange(n, end);
        let y = b.subrange(n, end);
        assert forall|i: int| 0 <= i < x.len() implies text::is_space(#[trigger] x[i])
            == text::is_space(y[i]) by {
            assert(x[i] == a[n + i] && y[i] == b[n + i]);
            assert(text::ascii_lower(a[n + i]) == text::ascii_lower(b[n + i]));
        }
        let (from, to) = text::texts_alike_are_trimmed_alike(x, y);
        assert(x.subrange(from, to) =~= a.subrange(n + from, n + to));
        assert(y.subrange(from, to) =~= b.subrange(n + from, n + to));
    }
}

/// Whether a value can stand in the customary receipt: without colons, and
/// without white space at its ends.
pub open spec fn is_value(v: Seq<char>) -> bool {
    &&& text::trimmed(v) == v
    &&& forall|t: int| 0 <= t < v.len() ==> #[trigger] v[t] != ':'
}

/// The receipt in its customary form gives back, under each name, what was
/// written behind the key of that name.
pub proof fn the_customary_receipt_reads_back(
    x: Receipt,
    id: Seq<char>,
    sub: Seq<char>,
    dlvrd: Seq<char>,
    submit_date: Seq<char>,
    done_date: Seq<char>,
    stat: Seq<char>,
    err: Seq<char>,
    message: Seq<char>,
)
    requires
        is_value(id) && is_value(sub) && is_value(dlvrd) && is_value(submit_date) && is_value(
            done_date,
        ) && is_value(stat) && is_value(err),
        x.reads(
            "id:"@ + id + " sub:"@ + sub + " dlvrd:"@ + dlvrd + " submit date:"@ + submit_date
                + " done date:"@ + done_date + " stat:"@ + stat + " err:"@ + err + " text:"@
                + message,
        ),
    ensures
        text::holds(x.id, Some(id)),
        text::holds(x.sub, Some(sub)),
        text::holds(x.dlvrd, Some(dlvrd)),
        text::holds(x.submit_date, Some(submit_date)),
        text::holds(x.done_date, Some(done_date)),
        text::holds(x.stat, Some(stat)),
        text::holds(x.err, Some(err)),
        text::holds(x.text, Some(text::trimmed(message))),
        x.message_state is None,
        x.raw@ == "id:"@ + id + " sub:"@ + sub + " dlvrd:"@ + dlvrd + " submit date:"@ + submit_date
            + " done date:"@ + done_date + " stat:"@ + stat + " err:"@ + err + " text:"@ + message,
{
    let fields: Seq<(int, Seq<char>)> = seq![
        (7int, id),
        (5int, sub),
        (2int, dlvrd),
        (0int, submit_date),
        (1int, done_date),
        (3int, stat),
        (6int, err),
    ];
    let raw = "id:"@ + id + " sub:"@ + sub + " dlvrd:"@ + dlvrd + " submit date:"@ + submit_date
        + " done date:"@ + done_date + " stat:"@ + stat + " err:"@ + err;
    reveal_strlit(":");
    reveal_strlit("id");
    reveal_strlit("id:");
    reveal_strlit("sub");
    reveal_strlit(" sub:");
    reveal_strlit("dlvrd");
    reveal_strlit(" dlvrd:");
    reveal_strlit("submit date");
    reveal_strlit(" submit date:");
    reveal_strlit("done date");
    reveal_strlit(" done date:");
    reveal_strlit("stat");
    reveal_strlit(" stat:");
    reveal_strlit("err");
    reveal_strlit(" err:");
    assert("id:"@ =~= needle(7));
    assert(" sub:"@ =~= seq![' '] + needle(5));
    assert(" dlvrd:"@ =~= seq![' '] + needle(2));
    assert(" submit date:"@ =~= seq![' '] + needle(0));
    assert(" done date:"@ =~= seq![' '] + needle(1));
    assert(" stat:"@ =~= seq![' '] + needle(3));
    assert(" err:"@ =~= seq![' '] + needle(6));
    let f1 = fields.take(1);
    let f2 = fields.take(2);
    let f3 = fields.take(3);
    let f4 = fields.take(4);
    let f5 = fields.take(5);
    let f6 = fields.take(6);
    assert(fields.drop_last() =~= f6);
    assert(f6.drop_last() =~= f5);
    assert(f5.drop_last() =~= f4);
    assert(f4.drop_last() =~= f3);
    assert(f3.drop_last() =~= f2);
    assert(f2.drop_last() =~= f1);
    assert(written(f1) =~= "id:"@ + id);
    assert(written(f2) =~= written(f1) + " sub:"@ + sub);
    assert(written(f3) =~= written(f2) + " dlvrd:"@ + dlvrd);
    assert(written(f4) =~= written(f3) + " submit date:"@ + submit_date);
    assert(written(f5) =~= written(f4) + " done date:"@ + done_date);
    assert(written(f6) =~= written(f5) + " stat:"@ + stat);
    assert(written(fields) =~= written(f6) + " err:"@ + err);
    assert(written(fields) == raw);
    plain_fields_are_apart(fields);
    written_text_reads_back(fields, message);
    assert(fields[0] == (7int, id) && fields[1] == (5int, sub) && fields[2] == (2int, dlvrd));
    assert(fields[3] == (0int, submit_date) && fields[4] == (1int, done_date));
    assert(fields[5] == (3int, stat) && fields[6] == (6int, err));
}

/// The body wins and the parameters fill its gaps: what the body says stands, the
/// id and the status come from the parameters only where the body has none, and
/// nothing else comes from them but the state code itself.
pub proof fn parameters_fill_only_the_gaps(
    x: Receipt,
    y: Receipt,
    raw: Seq<char>,
    id: Option<Seq<char>>,
    state: Option<u8>,
)
    requires
        x.fills(raw, id, state),
        y.reads(raw),
    ensures
        x.raw@ == raw,
        y.raw@ == raw,
        x.message_state == state,
        x.sub is Some == y.sub is Some && (x.sub is Some ==> x.sub->0@ == y.sub->0@),
        x.dlvrd is Some == y.dlvrd is Some && (x.dlvrd is Some ==> x.dlvrd->0@ == y.dlvrd->0@),
        x.submit_date is Some == y.submit_date is Some && (x.submit_date is Some
            ==> x.submit_date->0@ == y.submit_date->0@),
        x.done_date is Some == y.done_date is Some && (x.done_date is Some ==> x.done_date->0@
            == y.done_date->0@),
        x.err is Some == y.err is Some && (x.err is Some ==> x.err->0@ == y.err->0@),
        x.text is Some == y.text is Some && (x.text is Some ==> x.text->0@ == y.text->0@),
        y.id is Some ==> x.id is Some && x.id->0@ == y.id->0@,
        y.id is None ==> x.id is Some == id is Some && (id is Some ==> x.id->0@ == id->0),
        y.stat is Some ==> x.stat is Some && x.stat->0@ == y.stat->0@,
        y.stat is None ==> x.stat is Some == (state is Some && 1 <= state->0 <= 8),
        y.stat is None && state == Some(1u8) ==> x.stat->0@ == "ENROUTE"@,
        y.stat is None && state == Some(2u8) ==> x.stat->0@ == "DELIVRD"@,
        y.stat is None && state == Some(3u8) ==> x.stat->0@ == "EXPIRED"@,
        y.stat is None && state == Some(4u8) ==> x.stat->0@ == "DELETED"@,
        y.stat is None && state == Some(5u8) ==> x.stat->0@ == "UNDELIV"@,
        y.stat is None && state == Some(6u8) ==> x.stat->0@ == "ACCEPTD"@,
        y.stat is None && state == Some(7u8) ==> x.stat->0@ == "UNKNOWN"@,
        y.stat is None && state == Some(8u8) ==> x.stat->0@ == "REJECTD"@,
{
}

/// A body without any key has no field, so that all that a receipt then says
/// comes from the parameters.
pub proof fn a_body_without_keys_says_nothing(
    x: Receipt,
    raw: Seq<char>,
    id: Option<Seq<char>>,
    state: Option<u8>,
)
    requires
        x.fills(raw, id, state),
        !is_receipt(raw),
    ensures
        x.sub is None && x.dlvrd is None && x.submit_date is None && x.done_date is None,
        x.err is None && x.text is None,
        text::holds(x.id, id),
        x.stat is Some ==> state is Some,
{
    no_receipt_no_fields(raw);
    assert(field_text(raw, 0) is None && field_text(raw, 1) is None && field_text(raw, 2) is None);
    assert(field_text(raw, 3) is None && field_text(raw, 4) is None && field_text(raw, 5) is None);
    assert(field_text(raw, 6) is None && field_text(raw, 7) is None);
}

/// A body is a receipt where one of the keys stands in it with its colon, in
/// whatever case, and nowhere else.
pub proof fn a_body_with_a_key_is_a_receipt(raw: Seq<char>)
    ensures
        is_receipt(raw) <==> exists|k: int, p: int|
            0 <= k < key_count() && #[trigger] text::stands_at(lowered(raw), needle(k), p),
        forall|k: int|
            0 <= k < key_count() ==> ((#[trigger] field_text(raw, k)) is Some <==> exists|p: int|
                text::stands_at(lowered(raw), needle(k), p)),
{
    assert forall|k: int| 0 <= k < key_count() implies ((#[trigger] field_text(raw, k)) is Some
        <==> exists|p: int| text::stands_at(lowered(raw), needle(k), p)) by {
        text::find_from_is_first(lowered(raw), needle(k), 0);
        if let Some(p) = hit(raw, k) {
            assert(text::stands_at(lowered(raw), needle(k), p));
        }
    }
    if is_receipt(raw) {
        let k = choose|k: int| 0 <= k < key_count() && (#[trigger] hit(raw, k)) is Some;
        text::find_from_is_first(lowered(raw), needle(k), 0);
        assert(text::stands_at(lowered(raw), needle(k), hit(raw, k)->0));
    }
    if exists|k: int, p: int|
        0 <= k < key_count() && #[trigger] text::stands_at(lowered(raw), needle(k), p) {
        let (k, p) = choose|k: int, p: int|
            0 <= k < key_count() && #[trigger] text::stands_at(lowered(raw), needle(k), p);
        text::find_from_is_first(lowered(raw), needle(k), 0);
        assert(hit(raw, k) is Some);
    }
}

/// The dict of a receipt holds the raw body always, and each field under its own
/// name, just where the receipt has it.
pub proof fn the_dict_shows_what_there_is(x: Receipt, s: String, n: u8)
    ensures
        x.entries().contains(("id"@, ReceiptValue::Text(s))) <==> x.id == Some(s),
        x.entries().contains(("sub"@, ReceiptValue::Text(s))) <==> x.sub == Some(s),
        x.entries().contains(("dlvrd"@, ReceiptValue::Text(s))) <==> x.dlvrd == Some(s),
        x.entries().contains(("submit_date"@, ReceiptValue::Text(s))) <==> x.submit_date == Some(s),
        x.entries().contains(("done_date"@, ReceiptValue::Text(s))) <==> x.done_date == Some(s),
        x.entries().contains(("stat"@, ReceiptValue::Text(s))) <==> x.stat == Some(s),
        x.entries().contains(("err"@, ReceiptValue::Text(s))) <==> x.err == Some(s),
        x.entries().contains(("text"@, ReceiptValue::Text(s))) <==> x.text == Some(s),
        x.entries().contains(("message_state"@, ReceiptValue::Int(n))) <==> x.message_state == Some(n),
        x.entries().contains(("raw"@, ReceiptValue::Text(s))) <==> x.raw == s,
{
    names_of_the_dict_differ();
    let state: Seq<(Seq<char>, ReceiptValue)> = match x.message_state {
        Some(n) => seq![("message_state"@, ReceiptValue::Int(n))],
        None => Seq::empty(),
    };
    let e1 = text_entry("id"@, x.id) + text_entry("sub"@, x.sub);
    let e2 = e1 + text_entry("dlvrd"@, x.dlvrd);
    let e3 = e2 + text_entry("submit_date"@, x.submit_date);
    let e4 = e3 + text_entry("done_date"@, x.done_date);
    let e5 = e4 + text_entry("stat"@, x.stat);
    let e6 = e5 + text_entry("err"@, x.err);
    let e7 = e6 + text_entry("text"@, x.text);
    let e8 = e7 + state;
    let raw: Seq<(Seq<char>, ReceiptValue)> = seq![("raw"@, ReceiptValue::Text(x.raw))];
    assert(x.entries() == e8 + raw);
    assert forall|e: (Seq<char>, ReceiptValue)| #[trigger] x.entries().contains(e) <==> ({
        ||| text_entry("id"@, x.id).contains(e)
        ||| text_entry("sub"@, x.sub).contains(e)
        ||| text_entry("dlvrd"@, x.dlvrd).contains(e)
        ||| text_entry("submit_date"@, x.submit_date).contains(e)
        ||| text_entry("done_date"@, x.done_date).contains(e)
        ||| text_entry("stat"@, x.stat).contains(e)
        ||| text_entry("err"@, x.err).contains(e)
        ||| text_entry("text"@, x.text).contains(e)
        ||| state.contains(e)
        ||| raw.contains(e)
    }) by {
        joined_holds(e8, raw, e);
        joined_holds(e7, state, e);
        joined_holds(e6, text_entry("text"@, x.text), e);
        joined_holds(e5, text_entry("err"@, x.err), e);
        joined_holds(e4, text_entry("stat"@, x.stat), e);
        joined_holds(e3, text_entry("done_date"@, x.done_date), e);
        joined_holds(e2, text_entry("submit_date"@, x.submit_date), e);
        joined_holds(e1, text_entry("dlvrd"@, x.dlvrd), e);
        joined_holds(text_entry("id"@, x.id), text_entry("sub"@, x.sub), e);
    }
    entry_holds("id"@, x.id);
    entry_holds("sub"@, x.sub);
    entry_holds("dlvrd"@, x.dlvrd);
    entry_holds("submit_date"@, x.submit_date);
    entry_holds("done_date"@, x.done_date);
    entry_holds("stat"@, x.stat);
    entry_holds("err"@, x.err);
    entry_holds("text"@, x.text);
    assert(raw[0] == ("raw"@, ReceiptValue::Text(x.raw)));
    assert(x.message_state is Some ==> state[0] == ("message_state"@, ReceiptValue::Int(
        x.message_state->0,
    )));
}

proof fn joined_holds(
    a: Seq<(Seq<char>, ReceiptValue)>,
    b: Seq<(Seq<char>, ReceiptValue)>,
    e: (Seq<char>, ReceiptValue),
)
    ensures
        (a + b).contains(e) <==> a.contains(e) || b.contains(e),
{
    if a.contains(e) {
        let i = choose|i: int| 0 <= i < a.len() && a[i] == e;
        assert((a + b)[i] == e);
    }
    if b.contains(e) {
        let i = choose|i: int| 0 <= i < b.len() && b[i] == e;
        assert((a + b)[a.len() + i] == e);
    }
}

proof fn entry_holds(key: Seq<char>, v: Option<String>)
    ensures
        forall|e: (Seq<char>, ReceiptValue)| #[trigger]
            text_entry(key, v).contains(e) <==> v is Some && e == (key, ReceiptValue::Text(v->0)),
{
    if v is Some {
        assert(text_entry(key, v)[0] == (key, ReceiptValue::Text(v->0)));
    }
}

proof fn names_of_the_dict_differ()
    ensures
        "id"@ != "sub"@ && "id"@ != "err"@ && "sub"@ != "err"@ && "raw"@ != "sub"@ && "raw"@
            != "err"@,
        "stat"@ != "text"@,
        "id"@.len() == 2 && "sub"@.len() == 3 && "err"@.len() == 3 && "raw"@.len() == 3,
        "stat"@.len() == 4 && "text"@.len() == 4 && "dlvrd"@.len() == 5 && "done_date"@.len() == 9,
        "submit_date"@.len() == 11 && "message_state"@.len() == 13,
{
    reveal_strlit("id");
    reveal_strlit("sub");
    reveal_strlit("err");
    reveal_strlit("raw");
    reveal_strlit("stat");
    reveal_strlit("text");
    reveal_strlit("dlvrd");
    reveal_strlit("done_date");
    reveal_strlit("submit_date");
    reveal_strlit("message_state");
    assert("sub"@[0] != "err"@[0] && "raw"@[0] != "sub"@[0] && "raw"@[0] != "err"@[0]);
    assert("stat"@[0] != "text"@[0]);
}

/// A value begins behind the first place where its key stands, and ends where the
/// next key has its own first place, or with the body. That of `text` ends with
/// the body always.
pub proof fn a_value_ends_where_the_next_key_begins(raw: Seq<char>, k: int, p: int)
    requires
        0 <= k < key_count(),
        text::stands_at(lowered(raw), needle(k), p),
        forall|q: int| 0 <= q < p ==> !text::stands_at(lowered(raw), needle(k), q),
    ensures
        k == 4 ==> field_text(raw, k) == Some(
            text::trimmed(raw.subrange(p + needle(k).len(), raw.len() as int)),
        ),
        k != 4 ==> exists|e: int|
            {
                &&& p + needle(k).len() <= e <= raw.len()
                &&& field_text(raw, k) == Some(
                    text::trimmed(#[trigger] raw.subrange(p + needle(k).len(), e)),
                )
                &&& e == raw.len() || is_first_of_a_key(raw, e)
                &&& forall|q: int| p < q < e ==> !is_first_of_a_key(raw, q)
            },
{
    text::find_from_is_first(lowered(raw), needle(k), 0);
    assert(hit(raw, k) == Some(p));
    let e = next_hit(raw, p, 0);
    next_hit_is_behind(raw, k, 0);
    next_hit_is_a_hit(raw, p, 0);
    assert forall|q: int| p < q < e implies !is_first_of_a_key(raw, q) by {
        if is_first_of_a_key(raw, q) {
            let j = choose|j: int|
                0 <= j < key_count() && #[trigger] text::stands_at(lowered(raw), needle(j), q)
                    && forall|m: int| 0 <= m < q ==> !text::stands_at(lowered(raw), needle(j), m);
            text::find_from_is_first(lowered(raw), needle(j), 0);
            assert(hit(raw, j) == Some(q));
        }
    }
    if e != raw.len() {
        let j = choose|j: int| 0 <= j < key_count() && #[trigger] hit(raw, j) == Some(e);
        text::find_from_is_first(lowered(raw), needle(j), 0);
        assert(text::stands_at(lowered(raw), needle(j), e));
    }
    assert(k != 4 ==> field_text(raw, k) == Some(
        text::trimmed(raw.subrange(p + needle(k).len(), e)),
    ));
}

/// Whether one of the keys stands at `p` and nowhere before.
pub open spec fn is_first_of_a_key(raw: Seq<char>, p: int) -> bool {
    exists|k: int|
        0 <= k < key_count() && #[trigger] text::stands_at(lowered(raw), needle(k), p) && forall|
            q: int,
        |
            0 <= q < p ==> !text::stands_at(lowered(raw), needle(k), q)
}

proof fn next_hit_is_a_hit(raw: Seq<char>, p: int, k: int)
    requires
        0 <= k <= key_count(),
    ensures
        next_hit(raw, p, k) == raw.len() || exists|j: int|
            k <= j < key_count() && #[trigger] hit(raw, j) == Some(next_hit(raw, p, k)),
        forall|j: int|
            k <= j < key_count() ==> match #[trigger] hit(raw, j) {
                Some(q) => q <= p || next_hit(raw, p, k) <= q,
                None => true,
            },
    decreases key_count() - k,
{
    if k < key_count() {
        next_hit_is_a_hit(raw, p, k + 1);
        let e = next_hit(raw, p, k);
        if e == next_hit(raw, p, k + 1) && e != raw.len() {
            let j = choose|j: int| k + 1 <= j < key_count() && #[trigger] hit(raw, j) == Some(e);
            assert(k <= j < key_count() && hit(raw, j) == Some(e));
        } else if e != raw.len() {
            assert(hit(raw, k) == Some(e));
        }
        assert forall|j: int| k <= j < key_count() implies match #[trigger] hit(raw, j) {
            Some(q) => q <= p || e <= q,
            None => true,
        } by {
            if j > k {
                assert(hit(raw, j) matches Some(q) ==> q <= p || next_hit(raw, p, k + 1) <= q);
            } else {
                next_hit_is_inside(raw, p, k + 1);
                text::find_from_is_first(lowered(raw), needle(k), 0);
            }
        }
    }
}

/// The keys, by number.
pub proof fn the_keys_are_the_customary_ones()
    ensures
        key_count() == 8,
        needle(0) == "submit date:"@,
        needle(1) == "done date:"@,
        needle(2) == "dlvrd:"@,
        needle(3) == "stat:"@,
        needle(4) == "text:"@,
        needle(5) == "sub:"@,
        needle(6) == "err:"@,
        needle(7) == "id:"@,
{
    reveal_strlit(":");
    reveal_strlit("id");
    reveal_strlit("id:");
    reveal_strlit("sub");
    reveal_strlit("sub:");
    reveal_strlit("err");
    reveal_strlit("err:");
    reveal_strlit("stat");
    reveal_strlit("stat:");
    reveal_strlit("text");
    reveal_strlit("text:");
    reveal_strlit("dlvrd");
    reveal_strlit("dlvrd:");
    reveal_strlit("done date");
    reveal_strlit("done date:");
    reveal_strlit("submit date");
    reveal_strlit("submit date:");
    assert(needle(0) =~= "submit date:"@);
    assert(needle(1) =~= "done date:"@);
    assert(needle(2) =~= "dlvrd:"@);
    assert(needle(3) =~= "stat:"@);
    assert(needle(4) =~= "text:"@);
    assert(needle(5) =~= "sub:"@);
    assert(needle(6) =~= "err:"@);
    assert(needle(7) =~= "id:"@);
}

} // verus!
