//! Validation of the model's ranking answer: every recommended game must be
//! a candidate, scores lie in [0, 1], every user-visible claim cites evidence
//! the prompt offered, and no text carries markup or links. The sanitizer
//! drops what would fail and validates what is left.
use vstd::prelude::*;
use crate::ai_error::AiError;
use crate::ai_types::views;
use crate::num::{dec, push_dec};
use crate::text::{
    ascii_lower, chars_contain_any, chars_of, contains_any, extend_chars, lower_chars, owned, seq_contains,
    str_eq, string_from_chars, trim, trim_chars,
};

verus! {

/// A JSON number as the parser keeps it.
#[derive(Debug, Clone, Copy, PartialEq, Eq)]
pub enum JsonNumber {
    PosInt(u64),
    NegInt(i64),
    Float(u64),
}

/// A parsed JSON document.
#[derive(Debug)]
pub enum JsonValue {
    Null,
    Bool(bool),
    Number(JsonNumber),
    Str(String),
    Array(Vec<JsonValue>),
    Object(Vec<(String, JsonValue)>),
}

/// The mathematical form of a JSON document.
pub enum JsonView {
    Null,
    Bool(bool),
    Number(JsonNumber),
    Str(Seq<char>),
    Array(Seq<JsonView>),
    Object(Seq<(Seq<char>, JsonView)>),
}

pub open spec fn json_view(v: JsonValue) -> JsonView
    decreases v, 1nat,
{
    match v {
        JsonValue::Null => JsonView::Null,
        JsonValue::Bool(b) => JsonView::Bool(b),
        JsonValue::Number(n) => JsonView::Number(n),
        JsonValue::Str(s) => JsonView::Str(s@),
        JsonValue::Array(items) => JsonView::Array(list_view(items@)),
        JsonValue::Object(fields) => JsonView::Object(fields_view(fields@)),
    }
}

pub open spec fn list_view(s: Seq<JsonValue>) -> Seq<JsonView>
    decreases s, 0nat,
{
    if s.len() == 0 {
        Seq::empty()
    } else {
        list_view(s.drop_last()).push(json_view(s.last()))
    }
}

pub open spec fn fields_view(s: Seq<(String, JsonValue)>) -> Seq<(Seq<char>, JsonView)>
    decreases s, 0nat,
{
    if s.len() == 0 {
        Seq::empty()
    } else {
        fields_view(s.drop_last()).push((s.last().0@, json_view(s.last().1)))
    }
}


pub proof fn lemma_list_view(s: Seq<JsonValue>)
    ensures
        list_view(s).len() == s.len(),
        forall|i: int| 0 <= i < s.len() ==> #[trigger] list_view(s)[i] == json_view(s[i]),
    decreases s.len(),
{
    if s.len() > 0 {
        lemma_list_view(s.drop_last());
    }
}

pub proof fn lemma_fields_view(s: Seq<(String, JsonValue)>)
    ensures
        fields_view(s).len() == s.len(),
        forall|i: int| 0 <= i < s.len() ==> #[trigger] fields_view(s)[i] == (s[i].0@, json_view(s[i].1)),
    decreases s.len(),
{
    if s.len() > 0 {
        lemma_fields_view(s.drop_last());
    }
}

/// The value of the first field named `key`.
pub open spec fn field_of(fields: Seq<(Seq<char>, JsonView)>, key: Seq<char>) -> Option<JsonView>
    decreases fields.len(),
{
    if fields.len() == 0 {
        None
    } else if fields[0].0 == key {
        Some(fields[0].1)
    } else {
        field_of(fields.drop_first(), key)
    }
}

/// The value of the first field named `key` of an object.
pub fn get_field<'a>(fields: &'a Vec<(String, JsonValue)>, key: &str) -> (r: Option<&'a JsonValue>)
    ensures
        match r {
            Some(v) => field_of(fields_view(fields@), key@) == Some(json_view(*v)),
            None => field_of(fields_view(fields@), key@) is None,
        },
{
    let ghost fv = fields_view(fields@);
    proof {
        lemma_fields_view(fields@);
    }
    assert(fv.skip(0) =~= fv);
    let mut i: usize = 0;
    while i < fields.len()
        invariant
            i <= fields@.len(),
            fv == fields_view(fields@),
            fv.len() == fields@.len(),
            forall|k: int| 0 <= k < fields@.len() ==> #[trigger] fv[k] == (fields@[k].0@, json_view(fields@[k].1)),
            field_of(fv, key@) == field_of(fv.skip(i as int), key@),
        decreases fields@.len() - i,
    {
        assert(fv.skip(i as int)[0] == fv[i as int]);
        if str_eq(fields[i].0.as_str(), key) {
            return Some(&fields[i].1);
        }
        assert(fv.skip(i as int).drop_first() =~= fv.skip(i as int + 1));
        i = i + 1;
    }
    assert(fv.skip(i as int) =~= Seq::<(Seq<char>, JsonView)>::empty());
    None
}

/// Text that lower-cased holds an angle bracket, a script scheme or a web
/// link.
pub open spec fn looks_like_markup(t: Seq<char>) -> bool {
    contains_any(ascii_lower(t), seq!["<"@, ">"@, "javascript:"@, "http://"@, "https://"@])
}

/// Whether `text` holds markup or a link.
pub fn looks_like_html_or_url(text: &[char]) -> (r: bool)
    ensures
        r == looks_like_markup(text@),
{
    let lower = lower_chars(text);
    let needles = ["<", ">", "javascript:", "http://", "https://"];
    assert(needles@.map_values(|s: &str| s@) =~= seq!["<"@, ">"@, "javascript:"@, "http://"@, "https://"@]);
    chars_contain_any(lower.as_slice(), &needles)
}

/// The bits of the 64-bit float a number stands for when it lies in
/// [0, 1]; `None` otherwise.
pub open spec fn unit_bits(n: JsonNumber) -> Option<u64> {
    match n {
        JsonNumber::PosInt(v) => if v == 0 {
            Some(0u64)
        } else if v == 1 {
            Some(0x3FF0_0000_0000_0000u64)
        } else {
            None
        },
        JsonNumber::NegInt(_) => None,
        JsonNumber::Float(b) => if b <= 0x3FF0_0000_0000_0000 || b == 0x8000_0000_0000_0000 {
            Some(b)
        } else {
            None
        },
    }
}

fn unit_bits_exec(n: JsonNumber) -> (r: Option<u64>)
    ensures
        r == unit_bits(n),
{
    match n {
        JsonNumber::PosInt(v) => if v == 0 {
            Some(0)
        } else if v == 1 {
            Some(0x3FF0_0000_0000_0000)
        } else {
            None
        },
        JsonNumber::NegInt(_) => None,
        JsonNumber::Float(b) => if b <= 0x3FF0_0000_0000_0000 || b == 0x8000_0000_0000_0000 {
            Some(b)
        } else {
            None
        },
    }
}

/// `"recommendations[idx]"`.
pub open spec fn rk(idx: nat) -> Seq<char> {
    "recommendations["@ + dec(idx) + "]"@
}

/// `"recommendations[idx].key"`.
pub open spec fn rkk(idx: nat, key: Seq<char>) -> Seq<char> {
    rk(idx) + "."@ + key
}

fn push_text(out: &mut Vec<char>, s: &str)
    ensures
        final(out)@ == old(out)@ + s@,
{
    let c = chars_of(s);
    extend_chars(out, c.as_slice());
}

fn push_chars(out: &mut Vec<char>, s: &[char])
    ensures
        final(out)@ == old(out)@ + s@,
{
    extend_chars(out, s);
}

fn invalid(m: Vec<char>) -> (r: AiError)
    ensures
        r matches AiError::InvalidOutput(s) && s@ == m@,
{
    AiError::InvalidOutput(string_from_chars(m.as_slice()))
}

/// `rk(idx) + tail`.
fn rk_msg(idx: usize, tail: &str) -> (r: Vec<char>)
    ensures
        r@ == rk(idx as nat) + tail@,
{
    let mut m: Vec<char> = Vec::new();
    push_text(&mut m, "recommendations[");
    push_dec(&mut m, idx as u64);
    push_text(&mut m, "]");
    push_text(&mut m, tail);
    assert(m@ =~= rk(idx as nat) + tail@);
    m
}

/// `rkk(idx, key) + tail`.
fn rkk_msg(idx: usize, key: &str, tail: &str) -> (r: Vec<char>)
    ensures
        r@ == rkk(idx as nat, key@) + tail@,
{
    let mut m = rk_msg(idx, ".");
    push_text(&mut m, key);
    push_text(&mut m, tail);
    assert(m@ =~= rkk(idx as nat, key@) + tail@);
    m
}

/// `head + "[" + j + "]" + tail`.
fn indexed_msg(head: Vec<char>, j: usize, tail: &str) -> (r: Vec<char>)
    ensures
        r@ == head@ + "["@ + dec(j as nat) + "]"@ + tail@,
{
    let mut m = head;
    push_text(&mut m, "[");
    push_dec(&mut m, j as u64);
    push_text(&mut m, "]");
    push_text(&mut m, tail);
    m
}

/// The strings of a candidate's list field, trimmed with blanks dropped;
/// or the message of the first element that is not a string, is longer than
/// `max_chars` characters, or holds markup.
pub open spec fn item_strings(arr: Seq<JsonView>, idx: nat, key: Seq<char>, max_chars: nat) -> Result<
    Seq<Seq<char>>,
    Seq<char>,
>
    decreases arr.len(),
{
    if arr.len() == 0 {
        Ok(Seq::empty())
    } else {
        match item_strings(arr.drop_last(), idx, key, max_chars) {
            Err(e) => Err(e),
            Ok(out) => {
                let j = (arr.len() - 1) as nat;
                match arr.last() {
                    JsonView::Str(s) => {
                        let t = trim(s);
                        if t.len() == 0 {
                            Ok(out)
                        } else if t.len() > max_chars {
                            Err(rkk(idx, key) + "["@ + dec(j) + "]"@ + " too long"@)
                        } else if looks_like_markup(t) {
                            Err(rkk(idx, key) + "["@ + dec(j) + "]"@ + " contains disallowed content"@)
                        } else {
                            Ok(out.push(t))
                        }
                    },
                    _ => Err(rkk(idx, key) + "["@ + dec(j) + "]"@ + " must be string"@),
                }
            },
        }
    }
}

/// A candidate's optional list of strings `key`: absent is empty; otherwise
/// an array of at most `max_items` elements, each checked as
/// [`item_strings`] does.
pub open spec fn string_list_spec(
    fields: Seq<(Seq<char>, JsonView)>,
    key: Seq<char>,
    idx: nat,
    max_items: nat,
    max_chars: nat,
) -> Result<Seq<Seq<char>>, Seq<char>> {
    match field_of(fields, key) {
        None => Ok(Seq::empty()),
        Some(JsonView::Array(a)) => if a.len() > max_items {
            Err(rkk(idx, key) + " exceeds "@ + dec(max_items) + " items"@)
        } else {
            item_strings(a, idx, key, max_chars)
        },
        Some(_) => Err(rkk(idx, key) + " must be an array"@),
    }
}

pub proof fn lemma_item_strings_stays_failed(
    arr: Seq<JsonView>,
    k: int,
    idx: nat,
    key: Seq<char>,
    max_chars: nat,
)
    requires
        0 <= k <= arr.len(),
        item_strings(arr.take(k), idx, key, max_chars) is Err,
    ensures
        item_strings(arr, idx, key, max_chars) == item_strings(arr.take(k), idx, key, max_chars),
    decreases arr.len() - k,
{
    if k < arr.len() {
        assert(arr.take(k + 1).drop_last() =~= arr.take(k));
        lemma_item_strings_stays_failed(arr, k + 1, idx, key, max_chars);
    } else {
        assert(arr.take(k) =~= arr);
    }
}

/// The strings of `arr` checked as [`item_strings`] does.
fn check_item_strings(arr: &Vec<JsonValue>, idx: usize, key: &str, max_chars: usize) -> (r: Result<Vec<String>, AiError>)
    ensures
        match item_strings(list_view(arr@), idx as nat, key@, max_chars as nat) {
            Ok(out) => r matches Ok(v) && views(v@) == out,
            Err(m) => r matches Err(AiError::InvalidOutput(s)) && s@ == m,
        },
{
    let ghost av = list_view(arr@);
    proof {
        lemma_list_view(arr@);
    }
    let mut out: Vec<String> = Vec::new();
    assert(av.take(0) =~= Seq::<JsonView>::empty());
    assert(views(out@) =~= Seq::<Seq<char>>::empty());
    let mut j: usize = 0;
    while j < arr.len()
        invariant
            j <= arr@.len(),
            av == list_view(arr@),
            av.len() == arr@.len(),
            forall|k: int| 0 <= k < arr@.len() ==> #[trigger] av[k] == json_view(arr@[k]),
            item_strings(av.take(j as int), idx as nat, key@, max_chars as nat) == Ok::<Seq<Seq<char>>, Seq<char>>(
                views(out@),
            ),
        decreases arr@.len() - j,
    {
        let ghost prev = views(out@);
        assert(av.take(j as int + 1).drop_last() =~= av.take(j as int));
        assert(av.take(j as int + 1).last() == json_view(arr@[j as int]));
        match &arr[j] {
            JsonValue::Str(s) => {
                let raw = chars_of(s.as_str());
                let t = trim_chars(raw.as_slice());
                if t.len() == 0 {
                } else if t.len() > max_chars {
                    let m = indexed_msg(rkk_msg(idx, key, ""), j, " too long");
                    proof {
                        reveal_strlit("");
                        assert(rkk(idx as nat, key@) + ""@ =~= rkk(idx as nat, key@));
                        lemma_item_strings_stays_failed(av, j as int + 1, idx as nat, key@, max_chars as nat);
                        assert(av.take(j as int + 1).len() == j + 1);
                    }
                    return Err(invalid(m));
                } else if looks_like_html_or_url(t.as_slice()) {
                    let m = indexed_msg(rkk_msg(idx, key, ""), j, " contains disallowed content");
                    proof {
                        reveal_strlit("");
                        assert(rkk(idx as nat, key@) + ""@ =~= rkk(idx as nat, key@));
                        lemma_item_strings_stays_failed(av, j as int + 1, idx as nat, key@, max_chars as nat);
                    }
                    return Err(invalid(m));
                } else {
                    out.push(string_from_chars(t.as_slice()));
                    assert(views(out@) =~= prev.push(trim(s@)));
                }
            },
            _ => {
                let m = indexed_msg(rkk_msg(idx, key, ""), j, " must be string");
                proof {
                    reveal_strlit("");
                        assert(rkk(idx as nat, key@) + ""@ =~= rkk(idx as nat, key@));
                    lemma_item_strings_stays_failed(av, j as int + 1, idx as nat, key@, max_chars as nat);
                }
                return Err(invalid(m));
            },
        }
        j = j + 1;
    }
    assert(av.take(j as int) =~= av);
    Ok(out)
}

/// A candidate's list field `key`, checked as [`string_list_spec`] says.
fn string_list(
    fields: &Vec<(String, JsonValue)>,
    key: &str,
    idx: usize,
    max_items: usize,
    max_chars: usize,
) -> (r: Result<Vec<String>, AiError>)
    ensures
        match string_list_spec(fields_view(fields@), key@, idx as nat, max_items as nat, max_chars as nat) {
            Ok(out) => r matches Ok(v) && views(v@) == out,
            Err(m) => r matches Err(AiError::InvalidOutput(s)) && s@ == m,
        },
{
    match get_field(fields, key) {
        None => {
            let v: Vec<String> = Vec::new();
            assert(views(v@) =~= Seq::<Seq<char>>::empty());
            Ok(v)
        },
        Some(JsonValue::Array(arr)) => {
            proof {
                lemma_list_view(arr@);
            }
            if arr.len() > max_items {
                let mut m = rkk_msg(idx, key, " exceeds ");
                push_dec(&mut m, max_items as u64);
                push_text(&mut m, " items");
                assert(m@ =~= rkk(idx as nat, key@) + " exceeds "@ + dec(max_items as nat) + " items"@);
                return Err(invalid(m));
            }
            check_item_strings(arr, idx, key, max_chars)
        },
        Some(_) => Err(invalid(rkk_msg(idx, key, " must be an array"))),
    }
}


/// The strings of a root list field: trimmed with blanks dropped; or the
/// message of the first element that is not a string, is longer than
/// `max_chars` characters, or holds markup.
pub open spec fn root_strings(arr: Seq<JsonView>, key: Seq<char>, max_chars: nat) -> Result<Seq<Seq<char>>, Seq<char>>
    decreases arr.len(),
{
    if arr.len() == 0 {
        Ok(Seq::empty())
    } else {
        match root_strings(arr.drop_last(), key, max_chars) {
            Err(e) => Err(e),
            Ok(out) => {
                let j = (arr.len() - 1) as nat;
                match arr.last() {
                    JsonView::Str(s) => {
                        let t = trim(s);
                        if t.len() == 0 {
                            Ok(out)
                        } else if t.len() > max_chars || looks_like_markup(t) {
                            Err(key + "["@ + dec(j) + "]"@ + " is invalid"@)
                        } else {
                            Ok(out.push(t))
                        }
                    },
                    _ => Err(key + "["@ + dec(j) + "]"@ + " must be string"@),
                }
            },
        }
    }
}

/// A required root list of strings `key` of at most `max_items` elements,
/// each checked as [`root_strings`] does.
pub open spec fn root_string_list_spec(
    fields: Seq<(Seq<char>, JsonView)>,
    key: Seq<char>,
    max_items: nat,
    max_chars: nat,
) -> Result<Seq<Seq<char>>, Seq<char>> {
    match field_of(fields, key) {
        None => Err(key + " is required"@),
        Some(JsonView::Array(a)) => if a.len() > max_items {
            Err(key + " exceeds "@ + dec(max_items) + " items"@)
        } else {
            root_strings(a, key, max_chars)
        },
        Some(_) => Err(key + " must be an array"@),
    }
}

pub proof fn lemma_root_strings_stays_failed(arr: Seq<JsonView>, k: int, key: Seq<char>, max_chars: nat)
    requires
        0 <= k <= arr.len(),
        root_strings(arr.take(k), key, max_chars) is Err,
    ensures
        root_strings(arr, key, max_chars) == root_strings(arr.take(k), key, max_chars),
    decreases arr.len() - k,
{
    if k < arr.len() {
        assert(arr.take(k + 1).drop_last() =~= arr.take(k));
        lemma_root_strings_stays_failed(arr, k + 1, key, max_chars);
    } else {
        assert(arr.take(k) =~= arr);
    }
}

/// A required root list of strings, checked as [`root_string_list_spec`]
/// says.
fn root_string_list(fields: &Vec<(String, JsonValue)>, key: &str, max_items: usize, max_chars: usize) -> (r: Result<
    Vec<String>,
    AiError,
>)
    ensures
        match root_string_list_spec(fields_view(fields@), key@, max_items as nat, max_chars as nat) {
            Ok(out) => r matches Ok(v) && views(v@) == out,
            Err(m) => r matches Err(AiError::InvalidOutput(s)) && s@ == m,
        },
{
    let arr = match get_field(fields, key) {
        None => {
            let mut m = chars_of(key);
            push_text(&mut m, " is required");
            return Err(invalid(m));
        },
        Some(JsonValue::Array(arr)) => arr,
        Some(_) => {
            let mut m = chars_of(key);
            push_text(&mut m, " must be an array");
            return Err(invalid(m));
        },
    };
    proof {
        lemma_list_view(arr@);
    }
    if arr.len() > max_items {
        let mut m = chars_of(key);
        push_text(&mut m, " exceeds ");
        push_dec(&mut m, max_items as u64);
        push_text(&mut m, " items");
        return Err(invalid(m));
    }
    let ghost av = list_view(arr@);
    let mut out: Vec<String> = Vec::new();
    assert(av.take(0) =~= Seq::<JsonView>::empty());
    assert(views(out@) =~= Seq::<Seq<char>>::empty());
    let mut j: usize = 0;
    while j < arr.len()
        invariant
            j <= arr@.len(),
            av == list_view(arr@),
            av.len() == arr@.len(),
            forall|k: int| 0 <= k < arr@.len() ==> #[trigger] av[k] == json_view(arr@[k]),
            root_strings(av.take(j as int), key@, max_chars as nat) == Ok::<Seq<Seq<char>>, Seq<char>>(views(out@)),
            field_of(fields_view(fields@), key@) == Some(JsonView::Array(av)),
            av.len() <= max_items,
        decreases arr@.len() - j,
    {
        let ghost prev = views(out@);
        assert(av.take(j as int + 1).drop_last() =~= av.take(j as int));
        assert(av.take(j as int + 1).last() == json_view(arr@[j as int]));
        match &arr[j] {
            JsonValue::Str(s) => {
                let raw = chars_of(s.as_str());
                let t = trim_chars(raw.as_slice());
                if t.len() == 0 {
                } else if t.len() > max_chars || looks_like_html_or_url(t.as_slice()) {
                    let m = indexed_msg(chars_of(key), j, " is invalid");
                    proof {
                        assert(av.take(j as int + 1).len() == j + 1);
                        assert(root_strings(av.take(j as int + 1), key@, max_chars as nat) == Err::<Seq<Seq<char>>, Seq<char>>(m@));
                        lemma_root_strings_stays_failed(av, j as int + 1, key@, max_chars as nat);
                    }
                    return Err(invalid(m));
                } else {
                    out.push(string_from_chars(t.as_slice()));
                    assert(views(out@) =~= prev.push(trim(s@)));
                }
            },
            _ => {
                let m = indexed_msg(chars_of(key), j, " must be string");
                proof {
                    assert(av.take(j as int + 1).len() == j + 1);
                    assert(root_strings(av.take(j as int + 1), key@, max_chars as nat) == Err::<Seq<Seq<char>>, Seq<char>>(m@));
                    lemma_root_strings_stays_failed(av, j as int + 1, key@, max_chars as nat);
                }
                return Err(invalid(m));
            },
        }
        j = j + 1;
    }
    assert(av.take(j as int) =~= av);
    Ok(out)
}

/// A candidate's score field `key`: the bits of the float it stands for,
/// which must lie in [0, 1].
pub open spec fn unit_field_spec(fields: Seq<(Seq<char>, JsonView)>, key: Seq<char>, idx: nat) -> Result<u64, Seq<char>> {
    match field_of(fields, key) {
        Some(JsonView::Number(n)) => match unit_bits(n) {
            Some(b) => Ok(b),
            None => Err(rkk(idx, key) + " must be in [0,1]"@),
        },
        _ => Err(rkk(idx, key)),
    }
}

fn unit_field(fields: &Vec<(String, JsonValue)>, key: &str, idx: usize) -> (r: Result<u64, AiError>)
    ensures
        match unit_field_spec(fields_view(fields@), key@, idx as nat) {
            Ok(b) => r == Ok::<u64, AiError>(b),
            Err(m) => r matches Err(AiError::InvalidOutput(s)) && s@ == m,
        },
{
    match get_field(fields, key) {
        Some(JsonValue::Number(n)) => match unit_bits_exec(*n) {
            Some(b) => Ok(b),
            None => Err(invalid(rkk_msg(idx, key, " must be in [0,1]"))),
        },
        _ => {
            let m = rkk_msg(idx, key, "");
            proof {
                reveal_strlit("");
                assert(m@ =~= rkk(idx as nat, key@));
            }
            Err(invalid(m))
        },
    }
}

/// Candidate facts provided to the model for a ranking call.
#[derive(Debug, Clone)]
pub struct CandidateEvidence {
    pub app_id: u32,
    pub evidence_ids: Vec<String>,
}

/// The evidence ids a candidate offers.
pub open spec fn evidence_set(c: CandidateEvidence) -> Set<Seq<char>> {
    views(c.evidence_ids@).to_set()
}

/// The candidate with `app_id`; the last one when several share it.
pub open spec fn candidate_for(cands: Seq<CandidateEvidence>, app_id: u32) -> Option<CandidateEvidence>
    decreases cands.len(),
{
    if cands.len() == 0 {
        None
    } else if cands.last().app_id == app_id {
        Some(cands.last())
    } else {
        candidate_for(cands.drop_last(), app_id)
    }
}

/// Every candidate's evidence ids, candidate by candidate.
pub open spec fn all_ids(cands: Seq<CandidateEvidence>) -> Seq<Seq<char>>
    decreases cands.len(),
{
    if cands.len() == 0 {
        Seq::empty()
    } else {
        all_ids(cands.drop_last()) + views(cands.last().evidence_ids@)
    }
}

/// The evidence ids any candidate offers.
pub open spec fn all_evidence(cands: Seq<CandidateEvidence>) -> Set<Seq<char>> {
    all_ids(cands).to_set()
}

fn find_candidate<'a>(cands: &'a [CandidateEvidence], app_id: u32) -> (r: Option<&'a CandidateEvidence>)
    ensures
        match r {
            Some(c) => candidate_for(cands@, app_id) == Some(*c),
            None => candidate_for(cands@, app_id) is None,
        },
{
    let mut i: usize = cands.len();
    assert(cands@.take(i as int) =~= cands@);
    while i > 0
        invariant
            i <= cands@.len(),
            candidate_for(cands@, app_id) == candidate_for(cands@.take(i as int), app_id),
        decreases i,
    {
        assert(cands@.take(i as int).drop_last() =~= cands@.take(i as int - 1));
        assert(cands@.take(i as int).last() == cands@[i as int - 1]);
        if cands[i - 1].app_id == app_id {
            return Some(&cands[i - 1]);
        }
        i = i - 1;
    }
    None
}

fn contains_string(v: &Vec<String>, s: &str) -> (r: bool)
    ensures
        r == views(v@).contains(s@),
{
    let mut i: usize = 0;
    while i < v.len()
        invariant
            i <= v@.len(),
            forall|k: int| 0 <= k < i ==> (#[trigger] v@[k])@ != s@,
        decreases v@.len() - i,
    {
        if str_eq(v[i].as_str(), s) {
            assert(views(v@)[i as int] == s@);
            return true;
        }
        i = i + 1;
    }
    proof {
        if views(v@).contains(s@) {
            let k = choose|k: int| 0 <= k < views(v@).len() && views(v@)[k] == s@;
            assert(v@[k]@ == s@);
        }
    }
    false
}

/// The first id that `allowed` does not hold.
pub open spec fn first_outside(ids: Seq<Seq<char>>, allowed: Set<Seq<char>>) -> Option<Seq<char>>
    decreases ids.len(),
{
    if ids.len() == 0 {
        None
    } else if !allowed.contains(ids[0]) {
        Some(ids[0])
    } else {
        first_outside(ids.drop_first(), allowed)
    }
}

/// A validated recommendation.
#[derive(Debug, Clone)]
pub struct AiRankItem {
    pub app_id: u32,
    /// The bits of the 64-bit float fit score.
    pub fit_score_bits: u64,
    /// The bits of the 64-bit float confidence.
    pub confidence_bits: u64,
    pub reason_evidence_ids: Vec<String>,
    pub reasons: Vec<String>,
    pub cautions: Vec<String>,
}

/// A validated ranking answer.
#[derive(Debug, Clone)]
pub struct AiRankResult {
    pub recommendations: Vec<AiRankItem>,
    pub summary: String,
    pub summary_evidence_ids: Vec<String>,
}

/// The mathematical form of a validated recommendation.
pub struct RankItemView {
    pub app_id: u32,
    pub fit_score_bits: u64,
    pub confidence_bits: u64,
    pub evidence: Seq<Seq<char>>,
    pub reasons: Seq<Seq<char>>,
    pub cautions: Seq<Seq<char>>,
}

/// The mathematical form of a validated answer.
pub struct RankResultView {
    pub items: Seq<RankItemView>,
    pub summary: Seq<char>,
    pub summary_evidence: Seq<Seq<char>>,
}

pub open spec fn item_view(i: AiRankItem) -> RankItemView {
    RankItemView {
        app_id: i.app_id,
        fit_score_bits: i.fit_score_bits,
        confidence_bits: i.confidence_bits,
        evidence: views(i.reason_evidence_ids@),
        reasons: views(i.reasons@),
        cautions: views(i.cautions@),
    }
}

pub open spec fn result_view(r: AiRankResult) -> RankResultView {
    RankResultView {
        items: r.recommendations@.map_values(|i: AiRankItem| item_view(i)),
        summary: r.summary@,
        summary_evidence: views(r.summary_evidence_ids@),
    }
}

/// The check of the recommendation at position `idx`, given the app ids of
/// the recommendations before it.
pub open spec fn check_item(item: JsonView, idx: nat, cands: Seq<CandidateEvidence>, seen: Seq<u32>) -> Result<
    RankItemView,
    Seq<char>,
> {
    match item {
        JsonView::Object(f) => match field_of(f, "app_id"@) {
            Some(JsonView::Number(JsonNumber::PosInt(raw))) => if raw > u32::MAX {
                Err(rk(idx) + ".app_id exceeds the supported range"@)
            } else {
                let id = raw as u32;
                match candidate_for(cands, id) {
                    None => Err("app_id "@ + dec(id as nat) + " is outside the candidate set"@),
                    Some(c) => if seen.contains(id) {
                        Err("duplicate app_id "@ + dec(id as nat))
                    } else {
                        match unit_field_spec(f, "fit_score"@, idx) {
                            Err(e) => Err(e),
                            Ok(fit) => match unit_field_spec(f, "confidence"@, idx) {
                                Err(e) => Err(e),
                                Ok(conf) => match string_list_spec(f, "reasons"@, idx, 6, 240) {
                                    Err(e) => Err(e),
                                    Ok(reasons) => match string_list_spec(f, "cautions"@, idx, 4, 240) {
                                        Err(e) => Err(e),
                                        Ok(cautions) => match string_list_spec(
                                            f,
                                            "reason_evidence_ids"@,
                                            idx,
                                            12,
                                            120,
                                        ) {
                                            Err(e) => Err(e),
                                            Ok(ev) => match first_outside(ev, evidence_set(c)) {
                                                Some(bad) => Err(
                                                    "evidence_id '"@ + bad + "' is not allowed for app_id "@ + dec(
                                                        id as nat,
                                                    ),
                                                ),
                                                None => if (reasons.len() > 0 || cautions.len() > 0) && ev.len()
                                                    == 0 {
                                                    Err(rk(idx) + " reasons/cautions require reason_evidence_ids"@)
                                                } else {
                                                    Ok(
                                                        RankItemView {
                                                            app_id: id,
                                                            fit_score_bits: fit,
                                                            confidence_bits: conf,
                                                            evidence: ev,
                                                            reasons,
                                                            cautions,
                                                        },
                                                    )
                                                },
                                            },
                                        },
                                    },
                                },
                            },
                        }
                    },
                }
            },
            _ => Err(rk(idx) + ".app_id"@),
        },
        _ => Err(rk(idx) + " must be an object"@),
    }
}

/// The recommendations checked in order; the first failure wins.
pub open spec fn checked_items(recs: Seq<JsonView>, cands: Seq<CandidateEvidence>) -> Result<Seq<RankItemView>, Seq<char>>
    decreases recs.len(),
{
    if recs.len() == 0 {
        Ok(Seq::empty())
    } else {
        match checked_items(recs.drop_last(), cands) {
            Err(e) => Err(e),
            Ok(out) => match check_item(
                recs.last(),
                (recs.len() - 1) as nat,
                cands,
                out.map_values(|x: RankItemView| x.app_id),
            ) {
                Err(e) => Err(e),
                Ok(it) => Ok(out.push(it)),
            },
        }
    }
}

/// The summary text of an answer: the trimmed `summary` string, or empty.
pub open spec fn summary_of(fields: Seq<(Seq<char>, JsonView)>) -> Seq<char> {
    match field_of(fields, "summary"@) {
        Some(JsonView::Str(s)) => trim(s),
        _ => Seq::empty(),
    }
}

/// What validating the answer `v` yields: the checked recommendations,
/// summary and summary evidence, or the message of the first check that
/// fails.
pub open spec fn validate_spec(v: JsonView, cands: Seq<CandidateEvidence>, max_items: nat) -> Result<RankResultView, Seq<char>> {
    match v {
        JsonView::Object(f) => match field_of(f, "recommendations"@) {
            Some(JsonView::Array(recs)) => if recs.len() > max_items {
                Err("recommendations length "@ + dec(recs.len()) + " exceeds max "@ + dec(max_items))
            } else {
                match checked_items(recs, cands) {
                    Err(e) => Err(e),
                    Ok(items) => {
                        let summary = summary_of(f);
                        if summary.len() > 500 {
                            Err("summary is too long"@)
                        } else if looks_like_markup(summary) {
                            Err("summary contains disallowed content"@)
                        } else {
                            match root_string_list_spec(f, "summary_evidence_ids"@, 20, 120) {
                                Err(e) => Err(e),
                                Ok(ids) => match first_outside(ids, all_evidence(cands)) {
                                    Some(bad) => Err("summary evidence_id '"@ + bad + "' is not allowed"@),
                                    None => if summary.len() > 0 && ids.len() == 0 {
                                        Err("summary requires summary_evidence_ids"@)
                                    } else {
                                        Ok(RankResultView { items, summary, summary_evidence: ids })
                                    },
                                },
                            }
                        }
                    },
                }
            },
            _ => Err("recommendations must be an array"@),
        },
        _ => Err("root must be an object"@),
    }
}


pub proof fn lemma_contains_add(a: Seq<Seq<char>>, b: Seq<Seq<char>>, x: Seq<char>)
    ensures
        (a + b).contains(x) == (a.contains(x) || b.contains(x)),
{
    if (a + b).contains(x) {
        let k = choose|k: int| 0 <= k < (a + b).len() && (a + b)[k] == x;
        if k < a.len() {
            assert(a[k] == x);
        } else {
            assert(b[k - a.len()] == x);
        }
    }
    if a.contains(x) {
        let k = choose|k: int| 0 <= k < a.len() && a[k] == x;
        assert((a + b)[k] == x);
    }
    if b.contains(x) {
        let k = choose|k: int| 0 <= k < b.len() && b[k] == x;
        assert((a + b)[a.len() + k] == x);
    }
}

/// Whether some candidate offers evidence id `id`.
fn offered_by_any(cands: &[CandidateEvidence], id: &str) -> (r: bool)
    ensures
        r == all_evidence(cands@).contains(id@),
{
    let mut i: usize = 0;
    assert(cands@.take(0) =~= Seq::<CandidateEvidence>::empty());
    while i < cands.len()
        invariant
            i <= cands@.len(),
            !all_ids(cands@.take(i as int)).contains(id@),
        decreases cands@.len() - i,
    {
        assert(cands@.take(i as int + 1).drop_last() =~= cands@.take(i as int));
        assert(cands@.take(i as int + 1).last() == cands@[i as int]);
        proof {
            lemma_contains_add(all_ids(cands@.take(i as int)), views(cands@[i as int].evidence_ids@), id@);
        }
        if contains_string(&cands[i].evidence_ids, id) {
            proof {
                if cands@.take(i as int + 1) =~= cands@ {
                } else {
                    lemma_all_ids_prefix(cands@, i as int + 1, id@);
                }
            }
            return true;
        }
        i = i + 1;
    }
    assert(cands@.take(i as int) =~= cands@);
    false
}

pub proof fn lemma_all_ids_prefix(cands: Seq<CandidateEvidence>, k: int, x: Seq<char>)
    requires
        0 <= k <= cands.len(),
        all_ids(cands.take(k)).contains(x),
    ensures
        all_ids(cands).contains(x),
    decreases cands.len() - k,
{
    if k < cands.len() {
        assert(cands.take(k + 1).drop_last() =~= cands.take(k));
        lemma_contains_add(all_ids(cands.take(k)), views(cands.take(k + 1).last().evidence_ids@), x);
        lemma_all_ids_prefix(cands, k + 1, x);
    } else {
        assert(cands.take(k) =~= cands);
    }
}

/// The first of `ids` that `allowed_ids` does not hold.
pub(crate) fn first_not_in(ids: &Vec<String>, allowed_ids: &Vec<String>) -> (r: Option<usize>)
    ensures
        match first_outside(views(ids@), views(allowed_ids@).to_set()) {
            Some(bad) => r matches Some(k) && k < ids@.len() && ids@[k as int]@ == bad,
            None => r is None,
        },
{
    let ghost vs = views(ids@);
    let ghost allowed = views(allowed_ids@).to_set();
    assert(vs.skip(0) =~= vs);
    let mut i: usize = 0;
    while i < ids.len()
        invariant
            i <= ids@.len(),
            vs == views(ids@),
            allowed == views(allowed_ids@).to_set(),
            first_outside(vs, allowed) == first_outside(vs.skip(i as int), allowed),
        decreases ids@.len() - i,
    {
        assert(vs.skip(i as int)[0] == ids@[i as int]@);
        if !contains_string(allowed_ids, ids[i].as_str()) {
            return Some(i);
        }
        assert(vs.skip(i as int).drop_first() =~= vs.skip(i as int + 1));
        i = i + 1;
    }
    assert(vs.skip(i as int) =~= Seq::<Seq<char>>::empty());
    None
}

/// The first of `ids` that no candidate offers.
fn first_not_offered(ids: &Vec<String>, cands: &[CandidateEvidence]) -> (r: Option<usize>)
    ensures
        match first_outside(views(ids@), all_evidence(cands@)) {
            Some(bad) => r matches Some(k) && k < ids@.len() && ids@[k as int]@ == bad,
            None => r is None,
        },
{
    let ghost vs = views(ids@);
    assert(vs.skip(0) =~= vs);
    let mut i: usize = 0;
    while i < ids.len()
        invariant
            i <= ids@.len(),
            vs == views(ids@),
            first_outside(vs, all_evidence(cands@)) == first_outside(vs.skip(i as int), all_evidence(cands@)),
        decreases ids@.len() - i,
    {
        assert(vs.skip(i as int)[0] == ids@[i as int]@);
        if !offered_by_any(cands, ids[i].as_str()) {
            return Some(i);
        }
        assert(vs.skip(i as int).drop_first() =~= vs.skip(i as int + 1));
        i = i + 1;
    }
    assert(vs.skip(i as int) =~= Seq::<Seq<char>>::empty());
    None
}

/// The app ids of `items`.
pub open spec fn app_ids(items: Seq<AiRankItem>) -> Seq<u32> {
    items.map_values(|x: AiRankItem| x.app_id)
}

fn has_app(items: &Vec<AiRankItem>, app_id: u32) -> (r: bool)
    ensures
        r == app_ids(items@).contains(app_id),
{
    let mut i: usize = 0;
    while i < items.len()
        invariant
            i <= items@.len(),
            forall|k: int| 0 <= k < i ==> (#[trigger] items@[k]).app_id != app_id,
        decreases items@.len() - i,
    {
        if items[i].app_id == app_id {
            assert(app_ids(items@)[i as int] == app_id);
            return true;
        }
        i = i + 1;
    }
    proof {
        if app_ids(items@).contains(app_id) {
            let k = choose|k: int| 0 <= k < app_ids(items@).len() && app_ids(items@)[k] == app_id;
            assert(items@[k].app_id == app_id);
        }
    }
    false
}

/// `"text" + n + "tail"`.
fn num_msg(text: &str, n: u64, tail: &str) -> (r: Vec<char>)
    ensures
        r@ == text@ + dec(n as nat) + tail@,
{
    let mut m = chars_of(text);
    push_dec(&mut m, n);
    push_text(&mut m, tail);
    m
}

/// The recommendation at position `idx`, checked against the candidates and
/// the recommendations before it.
fn check_one(item: &JsonValue, idx: usize, cands: &[CandidateEvidence], items: &Vec<AiRankItem>) -> (r: Result<
    AiRankItem,
    AiError,
>)
    ensures
        match check_item(json_view(*item), idx as nat, cands@, app_ids(items@)) {
            Ok(v) => r matches Ok(it) && item_view(it) == v,
            Err(m) => r matches Err(AiError::InvalidOutput(s)) && s@ == m,
        },
{
    let fields = match item {
        JsonValue::Object(f) => f,
        _ => {
            return Err(invalid(rk_msg(idx, " must be an object")));
        },
    };
    let raw = match get_field(fields, "app_id") {
        Some(JsonValue::Number(JsonNumber::PosInt(raw))) => *raw,
        _ => {
            return Err(invalid(rk_msg(idx, ".app_id")));
        },
    };
    if raw > 0xFFFF_FFFF {
        return Err(invalid(rk_msg(idx, ".app_id exceeds the supported range")));
    }
    let app_id = raw as u32;
    let cand = match find_candidate(cands, app_id) {
        Some(c) => c,
        None => {
            return Err(invalid(num_msg("app_id ", app_id as u64, " is outside the candidate set")));
        },
    };
    if has_app(items, app_id) {
        let m = num_msg("duplicate app_id ", app_id as u64, "");
        proof {
            reveal_strlit("");
            assert(m@ =~= "duplicate app_id "@ + dec(app_id as nat));
        }
        return Err(invalid(m));
    }
    let fit = match unit_field(fields, "fit_score", idx) {
        Ok(b) => b,
        Err(e) => {
            return Err(e);
        },
    };
    let conf = match unit_field(fields, "confidence", idx) {
        Ok(b) => b,
        Err(e) => {
            return Err(e);
        },
    };
    let reasons = match string_list(fields, "reasons", idx, 6, 240) {
        Ok(v) => v,
        Err(e) => {
            return Err(e);
        },
    };
    let cautions = match string_list(fields, "cautions", idx, 4, 240) {
        Ok(v) => v,
        Err(e) => {
            return Err(e);
        },
    };
    let evidence = match string_list(fields, "reason_evidence_ids", idx, 12, 120) {
        Ok(v) => v,
        Err(e) => {
            return Err(e);
        },
    };
    match first_not_in(&evidence, &cand.evidence_ids) {
        Some(k) => {
            let mut m = chars_of("evidence_id '");
            push_text(&mut m, evidence[k].as_str());
            push_text(&mut m, "' is not allowed for app_id ");
            push_dec(&mut m, app_id as u64);
            return Err(invalid(m));
        },
        None => {},
    }
    if (reasons.len() > 0 || cautions.len() > 0) && evidence.len() == 0 {
        return Err(invalid(rk_msg(idx, " reasons/cautions require reason_evidence_ids")));
    }
    Ok(
        AiRankItem {
            app_id,
            fit_score_bits: fit,
            confidence_bits: conf,
            reason_evidence_ids: evidence,
            reasons,
            cautions,
        },
    )
}

pub proof fn lemma_checked_items_stays_failed(recs: Seq<JsonView>, k: int, cands: Seq<CandidateEvidence>)
    requires
        0 <= k <= recs.len(),
        checked_items(recs.take(k), cands) is Err,
    ensures
        checked_items(recs, cands) == checked_items(recs.take(k), cands),
    decreases recs.len() - k,
{
    if k < recs.len() {
        assert(recs.take(k + 1).drop_last() =~= recs.take(k));
        lemma_checked_items_stays_failed(recs, k + 1, cands);
    } else {
        assert(recs.take(k) =~= recs);
    }
}

/// Validate the model's ranking answer against the candidates: every
/// recommendation names a distinct candidate, scores lie in [0, 1], listed
/// texts are short and free of markup, every reason or caution cites
/// evidence its candidate offered, and a summary cites evidence some
/// candidate offered. The first failing check is reported.
pub fn validate_rank_result(value: &JsonValue, candidates: &[CandidateEvidence], max_items: usize) -> (r: Result<
    AiRankResult,
    AiError,
>)
    ensures
        match validate_spec(json_view(*value), candidates@, max_items as nat) {
            Ok(v) => r matches Ok(res) && result_view(res) == v,
            Err(m) => r matches Err(AiError::InvalidOutput(s)) && s@ == m,
        },
{
    let fields = match value {
        JsonValue::Object(f) => f,
        _ => {
            return Err(AiError::InvalidOutput(owned("root must be an object")));
        },
    };
    let recs = match get_field(fields, "recommendations") {
        Some(JsonValue::Array(a)) => a,
        _ => {
            return Err(AiError::InvalidOutput(owned("recommendations must be an array")));
        },
    };
    proof {
        lemma_list_view(recs@);
    }
    if recs.len() > max_items {
        let mut m = num_msg("recommendations length ", recs.len() as u64, " exceeds max ");
        push_dec(&mut m, max_items as u64);
        return Err(invalid(m));
    }
    let ghost rv = list_view(recs@);
    let mut items: Vec<AiRankItem> = Vec::new();
    assert(rv.take(0) =~= Seq::<JsonView>::empty());
    assert(items@.map_values(|i: AiRankItem| item_view(i)) =~= Seq::<RankItemView>::empty());
    let mut idx: usize = 0;
    while idx < recs.len()
        invariant
            idx <= recs@.len(),
            rv == list_view(recs@),
            rv.len() == recs@.len(),
            forall|k: int| 0 <= k < recs@.len() ==> #[trigger] rv[k] == json_view(recs@[k]),
            checked_items(rv.take(idx as int), candidates@) == Ok::<Seq<RankItemView>, Seq<char>>(
                items@.map_values(|i: AiRankItem| item_view(i)),
            ),
            json_view(*value) == JsonView::Object(fields_view(fields@)),
            field_of(fields_view(fields@), "recommendations"@) == Some(JsonView::Array(rv)),
            rv.len() <= max_items,
        decreases recs@.len() - idx,
    {
        let ghost prev = items@.map_values(|i: AiRankItem| item_view(i));
        assert(rv.take(idx as int + 1).drop_last() =~= rv.take(idx as int));
        assert(rv.take(idx as int + 1).last() == json_view(recs@[idx as int]));
        assert(prev.map_values(|x: RankItemView| x.app_id) =~= app_ids(items@));
        match check_one(&recs[idx], idx, candidates, &items) {
            Ok(it) => {
                items.push(it);
                assert(items@.map_values(|i: AiRankItem| item_view(i)) =~= prev.push(item_view(it)));
            },
            Err(e) => {
                proof {
                    lemma_checked_items_stays_failed(rv, idx as int + 1, candidates@);
                }
                return Err(e);
            },
        }
        idx = idx + 1;
    }
    assert(rv.take(idx as int) =~= rv);
    let summary: Vec<char> = match get_field(fields, "summary") {
        Some(JsonValue::Str(s)) => {
            let raw = chars_of(s.as_str());
            trim_chars(raw.as_slice())
        },
        _ => Vec::new(),
    };
    assert(summary@ == summary_of(fields_view(fields@)));
    if summary.len() > 500 {
        return Err(AiError::InvalidOutput(owned("summary is too long")));
    }
    if looks_like_html_or_url(summary.as_slice()) {
        return Err(AiError::InvalidOutput(owned("summary contains disallowed content")));
    }
    let ids = match root_string_list(fields, "summary_evidence_ids", 20, 120) {
        Ok(v) => v,
        Err(e) => {
            return Err(e);
        },
    };
    match first_not_offered(&ids, candidates) {
        Some(k) => {
            let mut m = chars_of("summary evidence_id '");
            push_text(&mut m, ids[k].as_str());
            push_text(&mut m, "' is not allowed");
            return Err(invalid(m));
        },
        None => {},
    }
    if summary.len() > 0 && ids.len() == 0 {
        return Err(AiError::InvalidOutput(owned("summary requires summary_evidence_ids")));
    }
    Ok(AiRankResult { recommendations: items, summary: string_from_chars(summary.as_slice()), summary_evidence_ids: ids })
}


/// `a` sorts before `b` as strings do: by code point, a proper prefix first.
pub open spec fn lex_lt(a: Seq<char>, b: Seq<char>) -> bool
    decreases a.len(),
{
    if a.len() == 0 {
        b.len() > 0
    } else if b.len() == 0 {
        false
    } else if a[0] != b[0] {
        a[0] < b[0]
    } else {
        lex_lt(a.drop_first(), b.drop_first())
    }
}

pub proof fn lemma_lex_irreflexive(a: Seq<char>)
    ensures
        !lex_lt(a, a),
    decreases a.len(),
{
    if a.len() > 0 {
        lemma_lex_irreflexive(a.drop_first());
    }
}

pub proof fn lemma_lex_total(a: Seq<char>, b: Seq<char>)
    ensures
        a == b || lex_lt(a, b) || lex_lt(b, a),
        !(lex_lt(a, b) && lex_lt(b, a)),
    decreases a.len(),
{
    if a.len() > 0 && b.len() > 0 {
        if a[0] == b[0] {
            lemma_lex_total(a.drop_first(), b.drop_first());
            if a.drop_first() == b.drop_first() {
                assert(a =~= seq![a[0]] + a.drop_first());
                assert(b =~= seq![b[0]] + b.drop_first());
            }
        } else {
            assert(a[0] < b[0] || b[0] < a[0]);
        }
    } else if a.len() == 0 && b.len() == 0 {
        assert(a =~= b);
    }
}

pub proof fn lemma_lex_transitive(a: Seq<char>, b: Seq<char>, c: Seq<char>)
    requires
        lex_lt(a, b),
        lex_lt(b, c),
    ensures
        lex_lt(a, c),
    decreases a.len(),
{
    if a.len() > 0 && b.len() > 0 && c.len() > 0 {
        if a[0] == b[0] && b[0] == c[0] {
            lemma_lex_transitive(a.drop_first(), b.drop_first(), c.drop_first());
        }
    }
}

/// Whether `a` sorts before `b`.
pub fn str_less(a: &[char], b: &[char]) -> (r: bool)
    ensures
        r == lex_lt(a@, b@),
{
    let mut i: usize = 0;
    assert(a@.skip(0) =~= a@);
    assert(b@.skip(0) =~= b@);
    while i < a.len() && i < b.len()
        invariant
            i <= a@.len(),
            i <= b@.len(),
            lex_lt(a@, b@) == lex_lt(a@.skip(i as int), b@.skip(i as int)),
        decreases a@.len() - i,
    {
        assert(a@.skip(i as int)[0] == a@[i as int]);
        assert(b@.skip(i as int)[0] == b@[i as int]);
        if a[i] != b[i] {
            return a[i] < b[i];
        }
        assert(a@.skip(i as int).drop_first() =~= a@.skip(i as int + 1));
        assert(b@.skip(i as int).drop_first() =~= b@.skip(i as int + 1));
        i = i + 1;
    }
    i < b.len()
}

/// `x` comes after `last` (anything does when there is no `last`).
pub open spec fn after(x: Seq<char>, last: Option<Seq<char>>) -> bool {
    match last {
        None => true,
        Some(l) => lex_lt(l, x),
    }
}

/// The least element of `src` that comes after `last`.
pub open spec fn least_after(src: Seq<Seq<char>>, last: Option<Seq<char>>) -> Option<Seq<char>>
    decreases src.len(),
{
    if src.len() == 0 {
        None
    } else {
        let m = least_after(src.drop_last(), last);
        let x = src.last();
        if after(x, last) {
            match m {
                None => Some(x),
                Some(y) => if lex_lt(x, y) {
                    Some(x)
                } else {
                    Some(y)
                },
            }
        } else {
            m
        }
    }
}

/// The `k` least distinct elements of `src` that come after `last`, in
/// order.
pub open spec fn least_k(src: Seq<Seq<char>>, k: nat, last: Option<Seq<char>>) -> Seq<Seq<char>>
    decreases k,
{
    if k == 0 {
        Seq::empty()
    } else {
        match least_after(src, last) {
            None => Seq::empty(),
            Some(m) => seq![m] + least_k(src, (k - 1) as nat, Some(m)),
        }
    }
}

/// `r` is the `k` least distinct elements of `s` in increasing order (all of
/// them when `s` has fewer).
pub open spec fn smallest(r: Seq<Seq<char>>, s: Set<Seq<char>>, k: nat) -> bool {
    &&& r.len() <= k
    &&& forall|i: int| 0 <= i < r.len() ==> s.contains(#[trigger] r[i])
    &&& forall|i: int, j: int| 0 <= i < j < r.len() ==> lex_lt(#[trigger] r[i], #[trigger] r[j])
    &&& forall|x: Seq<char>|
        s.contains(x) && !r.contains(x) ==> r.len() == k && forall|i: int|
            0 <= i < r.len() ==> lex_lt(#[trigger] r[i], x)
}

pub proof fn lemma_least_after(src: Seq<Seq<char>>, last: Option<Seq<char>>)
    ensures
        match least_after(src, last) {
            Some(m) => src.contains(m) && after(m, last) && forall|x: Seq<char>|
                src.contains(x) && after(x, last) ==> x == m || lex_lt(m, x),
            None => forall|x: Seq<char>| src.contains(x) ==> !after(x, last),
        },
    decreases src.len(),
{
    if src.len() > 0 {
        let p = src.drop_last();
        lemma_least_after(p, last);
        let x = src.last();
        assert(src =~= p.push(x));
        assert forall|y: Seq<char>| src.contains(y) implies p.contains(y) || y == x by {
            let k = choose|k: int| 0 <= k < src.len() && src[k] == y;
            if k < p.len() {
                assert(p[k] == y);
            }
        }
        assert(src[src.len() - 1] == x);
        match least_after(p, last) {
            Some(m) => {
                let k = choose|k: int| 0 <= k < p.len() && p[k] == m;
                assert(src[k] == m);
                lemma_lex_total(x, m);
                assert forall|y: Seq<char>| src.contains(y) && after(y, last) implies y == least_after(
                    src,
                    last,
                )->0 || lex_lt(least_after(src, last)->0, y) by {
                    if p.contains(y) && y != m {
                        if lex_lt(x, m) {
                            lemma_lex_transitive(x, m, y);
                        }
                    }
                    if y == x {
                        lemma_lex_total(x, m);
                    }
                }
            },
            None => {},
        }
    }
}

pub proof fn lemma_least_k(src: Seq<Seq<char>>, k: nat, last: Option<Seq<char>>)
    ensures
        ({
            let r = least_k(src, k, last);
            &&& r.len() <= k
            &&& forall|i: int| 0 <= i < r.len() ==> src.contains(#[trigger] r[i]) && after(r[i], last)
            &&& forall|i: int, j: int| 0 <= i < j < r.len() ==> lex_lt(#[trigger] r[i], #[trigger] r[j])
            &&& forall|x: Seq<char>|
                src.contains(x) && after(x, last) && !r.contains(x) ==> r.len() == k && forall|i: int|
                    0 <= i < r.len() ==> lex_lt(#[trigger] r[i], x)
        }),
    decreases k,
{
    lemma_least_after(src, last);
    if k > 0 {
        match least_after(src, last) {
            None => {},
            Some(m) => {
                lemma_least_k(src, (k - 1) as nat, Some(m));
                let rest = least_k(src, (k - 1) as nat, Some(m));
                let r = least_k(src, k, last);
                assert(r == seq![m] + rest);
                assert forall|i: int| 0 <= i < r.len() implies src.contains(#[trigger] r[i]) && after(r[i], last) by {
                    if i > 0 {
                        assert(r[i] == rest[i - 1]);
                        match last {
                            Some(l) => {
                                lemma_lex_transitive(l, m, rest[i - 1]);
                            },
                            None => {},
                        }
                    }
                }
                assert forall|i: int, j: int| 0 <= i < j < r.len() implies lex_lt(#[trigger] r[i], #[trigger] r[j]) by {
                    assert(r[j] == rest[j - 1]);
                    if i > 0 {
                        assert(r[i] == rest[i - 1]);
                    }
                }
                assert forall|x: Seq<char>|
                    src.contains(x) && after(x, last) && !r.contains(x) implies r.len() == k && forall|i: int|
                    0 <= i < r.len() ==> lex_lt(#[trigger] r[i], x) by {
                    assert(r[0] == m);
                    assert(x != m);
                    assert(lex_lt(m, x));
                    assert(!rest.contains(x)) by {
                        if rest.contains(x) {
                            let t = choose|t: int| 0 <= t < rest.len() && rest[t] == x;
                            assert(r[t + 1] == x);
                        }
                    }
                    assert forall|i: int| 0 <= i < r.len() implies lex_lt(#[trigger] r[i], x) by {
                        if i > 0 {
                            assert(r[i] == rest[i - 1]);
                        }
                    }
                }
            },
        }
    }
}

/// The least element of `src` after `last`, by position.
fn least_after_exec(src: &Vec<String>, last: Option<&Vec<char>>) -> (r: Option<usize>)
    ensures
        match least_after(views(src@), match last { Some(l) => Some(l@), None => None }) {
            Some(m) => r matches Some(i) && i < src@.len() && src@[i as int]@ == m,
            None => r is None,
        },
{
    let ghost lv = match last {
        Some(l) => Some(l@),
        None => None,
    };
    let ghost vs = views(src@);
    let mut best: Option<usize> = None;
    let mut best_chars: Vec<char> = Vec::new();
    let mut i: usize = 0;
    assert(vs.take(0) =~= Seq::<Seq<char>>::empty());
    while i < src.len()
        invariant
            i <= src@.len(),
            vs == views(src@),
            lv == match last { Some(l) => Some(l@), None => None },
            match least_after(vs.take(i as int), lv) {
                Some(m) => best matches Some(b) && b < src@.len() && src@[b as int]@ == m && best_chars@ == m,
                None => best is None,
            },
        decreases src@.len() - i,
    {
        assert(vs.take(i as int + 1).drop_last() =~= vs.take(i as int));
        assert(vs.take(i as int + 1).last() == src@[i as int]@);
        let x = chars_of(src[i].as_str());
        let is_after = match last {
            None => true,
            Some(l) => str_less(l.as_slice(), x.as_slice()),
        };
        if is_after {
            match best {
                None => {
                    best = Some(i);
                    best_chars = x;
                },
                Some(_) => {
                    if str_less(x.as_slice(), best_chars.as_slice()) {
                        best = Some(i);
                        best_chars = x;
                    }
                },
            }
        }
        i = i + 1;
    }
    assert(vs.take(i as int) =~= vs);
    best
}

/// The view of an optional list of characters.
pub open spec fn chars_opt_view(o: Option<Vec<char>>) -> Option<Seq<char>> {
    match o {
        Some(l) => Some(l@),
        None => None,
    }
}

/// The `k` least distinct strings of `src`, in increasing order.
pub fn smallest_ids(src: &Vec<String>, k: usize) -> (r: Vec<String>)
    ensures
        views(r@) == least_k(views(src@), k as nat, None),
        smallest(views(r@), views(src@).to_set(), k as nat),
{
    let ghost vs = views(src@);
    let mut out: Vec<String> = Vec::new();
    let mut last: Option<Vec<char>> = None;
    let mut n: usize = 0;
    proof {
        assert(least_k(vs, k as nat, None) =~= Seq::<Seq<char>>::empty() + least_k(vs, k as nat, None));
    }
    while n < k
        invariant_except_break
            least_k(vs, k as nat, None) == views(out@) + least_k(vs, (k - n) as nat, chars_opt_view(last)),
        invariant
            n <= k,
            vs == views(src@),
            views(out@).len() == n,
        ensures
            least_k(vs, k as nat, None) == views(out@),
        decreases k - n,
    {
        let ghost lv = chars_opt_view(last);
        let found = match &last {
            Some(l) => least_after_exec(src, Some(l)),
            None => least_after_exec(src, None),
        };
        match found {
            None => {
                assert(least_k(vs, (k - n) as nat, lv) =~= Seq::<Seq<char>>::empty());
                assert(views(out@) + Seq::<Seq<char>>::empty() =~= views(out@));
                break;
            },
            Some(i) => {
                let ghost before = views(out@);
                let m = src[i].clone();
                let mc = chars_of(m.as_str());
                out.push(m);
                assert(views(out@) =~= before.push(src@[i as int]@));
                last = Some(mc);
                assert(least_k(vs, (k - n) as nat, lv) == seq![src@[i as int]@] + least_k(vs, (k - n - 1) as nat, Some(src@[i as int]@)));
                assert(before + (seq![src@[i as int]@] + least_k(vs, (k - n - 1) as nat, Some(src@[i as int]@))) =~= before.push(src@[i as int]@) + least_k(vs, (k - n - 1) as nat, Some(src@[i as int]@)));
            },
        }
        n = n + 1;
        proof {
            if n == k {
                assert(views(out@) + least_k(vs, 0nat, chars_opt_view(last)) =~= views(out@));
            }
        }
    }
    proof {
        lemma_least_k(vs, k as nat, None);
    }
    out
}


/// A checked list, or nothing when the check failed.
pub open spec fn list_or_empty(r: Result<Seq<Seq<char>>, Seq<char>>) -> Seq<Seq<char>> {
    match r {
        Ok(v) => v,
        Err(_) => Seq::empty(),
    }
}

/// The ids of `ids` that `allowed` holds, in order.
pub open spec fn kept(ids: Seq<Seq<char>>, allowed: Set<Seq<char>>) -> Seq<Seq<char>>
    decreases ids.len(),
{
    if ids.len() == 0 {
        Seq::empty()
    } else {
        let p = kept(ids.drop_last(), allowed);
        if allowed.contains(ids.last()) {
            p.push(ids.last())
        } else {
            p
        }
    }
}

/// JSON strings.
pub open spec fn strs_view(s: Seq<Seq<char>>) -> Seq<JsonView> {
    s.map_values(|x: Seq<char>| JsonView::Str(x))
}

/// The JSON object the sanitizer writes for a kept recommendation.
pub open spec fn clean_item_json(v: RankItemView) -> JsonView {
    JsonView::Object(
        seq![
            ("app_id"@, JsonView::Number(JsonNumber::PosInt(v.app_id as u64))),
            ("cautions"@, JsonView::Array(strs_view(v.cautions))),
            ("confidence"@, JsonView::Number(JsonNumber::Float(v.confidence_bits))),
            ("fit_score"@, JsonView::Number(JsonNumber::Float(v.fit_score_bits))),
            ("reason_evidence_ids"@, JsonView::Array(strs_view(v.evidence))),
            ("reasons"@, JsonView::Array(strs_view(v.reasons))),
        ],
    )
}

/// What the sanitizer makes of one recommendation: the cleaned
/// recommendation, or nothing when it is dropped; and whether anything was
/// stripped. A recommendation is dropped when it is not an object, its app id
/// is missing, too large or not a candidate, or a score is missing or outside
/// [0, 1]. Lists that fail their checks count as empty; evidence its
/// candidate does not offer is removed; claims left without evidence cite
/// the candidate's three least evidence ids, or are removed when it offers
/// none.
pub open spec fn sanitize_item(item: JsonView, cands: Seq<CandidateEvidence>) -> (Option<RankItemView>, bool) {
    match item {
        JsonView::Object(f) => match field_of(f, "app_id"@) {
            Some(JsonView::Number(JsonNumber::PosInt(raw))) => if raw > u32::MAX {
                (None, true)
            } else {
                let id = raw as u32;
                match candidate_for(cands, id) {
                    None => (None, true),
                    Some(c) => {
                        let ev0 = list_or_empty(string_list_spec(f, "reason_evidence_ids"@, 0, 12, 120));
                        let ev1 = kept(ev0, evidence_set(c));
                        let reasons0 = list_or_empty(string_list_spec(f, "reasons"@, 0, 6, 240));
                        let cautions0 = list_or_empty(string_list_spec(f, "cautions"@, 0, 4, 240));
                        let claims = (reasons0.len() > 0 || cautions0.len() > 0) && ev1.len() == 0;
                        let none_offered = c.evidence_ids@.len() == 0;
                        let ev = if claims && !none_offered {
                            least_k(views(c.evidence_ids@), 3, None)
                        } else {
                            ev1
                        };
                        let reasons = if claims && none_offered {
                            Seq::empty()
                        } else {
                            reasons0
                        };
                        let cautions = if claims && none_offered {
                            Seq::empty()
                        } else {
                            cautions0
                        };
                        match unit_field_spec(f, "fit_score"@, 0) {
                            Ok(fit) => match unit_field_spec(f, "confidence"@, 0) {
                                Ok(conf) => (
                                    Some(
                                        RankItemView {
                                            app_id: id,
                                            fit_score_bits: fit,
                                            confidence_bits: conf,
                                            evidence: ev,
                                            reasons,
                                            cautions,
                                        },
                                    ),
                                    ev1.len() != ev0.len() || claims,
                                ),
                                Err(_) => (None, true),
                            },
                            Err(_) => (None, true),
                        }
                    },
                }
            },
            _ => (None, true),
        },
        _ => (None, true),
    }
}

/// The sanitized recommendations, in order, and whether anything was
/// stripped from them.
pub open spec fn sanitized_items(recs: Seq<JsonView>, cands: Seq<CandidateEvidence>) -> (Seq<RankItemView>, bool)
    decreases recs.len(),
{
    if recs.len() == 0 {
        (Seq::empty(), false)
    } else {
        let prev = sanitized_items(recs.drop_last(), cands);
        let one = sanitize_item(recs.last(), cands);
        (
            match one.0 {
                Some(v) => prev.0.push(v),
                None => prev.0,
            },
            prev.1 || one.1,
        )
    }
}

/// The sanitized summary, its evidence, and whether anything was stripped: a
/// failing evidence list counts as empty and keeps only ids some candidate
/// offers; a summary with markup is removed with its evidence; a summary
/// left without evidence cites the four least ids offered, or is removed
/// when none is; a summary longer than 500 characters is cut there.
pub open spec fn sanitized_summary(f: Seq<(Seq<char>, JsonView)>, cands: Seq<CandidateEvidence>) -> (
    Seq<char>,
    Seq<Seq<char>>,
    bool,
) {
    let s0 = summary_of(f);
    let ids0 = list_or_empty(root_string_list_spec(f, "summary_evidence_ids"@, 20, 120));
    let ids1 = kept(ids0, all_evidence(cands));
    let markup = looks_like_markup(s0);
    let bare = !markup && s0.len() > 0 && ids1.len() == 0;
    let none_offered = all_ids(cands).len() == 0;
    let s1 = if markup || (bare && none_offered) {
        Seq::<char>::empty()
    } else {
        s0
    };
    let ids = if markup {
        Seq::<Seq<char>>::empty()
    } else if bare && !none_offered {
        least_k(all_ids(cands), 4, None)
    } else {
        ids1
    };
    let st = ids1.len() != ids0.len() || markup || bare || s1.len() > 500;
    (if s1.len() > 500 {
        s1.take(500)
    } else {
        s1
    }, ids, st)
}

/// What the sanitizer makes of an answer: the cleaned answer and whether
/// anything was stripped; or the message of a root that is not an object, a
/// missing recommendation list, or a list of which nothing remained.
pub open spec fn sanitize_spec(v: JsonView, cands: Seq<CandidateEvidence>) -> Result<(JsonView, bool), Seq<char>> {
    match v {
        JsonView::Object(f) => match field_of(f, "recommendations"@) {
            Some(JsonView::Array(recs)) => {
                let items = sanitized_items(recs, cands);
                if items.0.len() == 0 && recs.len() > 0 {
                    Err("no recommendations remained after sanitization"@)
                } else {
                    let sm = sanitized_summary(f, cands);
                    Ok(
                        (
                            JsonView::Object(
                                seq![
                                    (
                                        "recommendations"@,
                                        JsonView::Array(items.0.map_values(|x: RankItemView| clean_item_json(x))),
                                    ),
                                    ("summary"@, JsonView::Str(sm.0)),
                                    ("summary_evidence_ids"@, JsonView::Array(strs_view(sm.1))),
                                ],
                            ),
                            items.1 || sm.2,
                        ),
                    )
                }
            },
            _ => Err("recommendations must be an array"@),
        },
        _ => Err("root must be an object"@),
    }
}

fn strs_json(v: Vec<String>) -> (r: JsonValue)
    ensures
        json_view(r) == JsonView::Array(strs_view(views(v@))),
{
    let ghost vv = views(v@);
    let mut items: Vec<JsonValue> = Vec::new();
    let mut i: usize = 0;
    while i < v.len()
        invariant
            i <= v@.len(),
            vv == views(v@),
            items@.len() == i,
            forall|k: int| 0 <= k < i ==> #[trigger] json_view(items@[k]) == JsonView::Str(v@[k]@),
        decreases v@.len() - i,
    {
        items.push(JsonValue::Str(v[i].clone()));
        i = i + 1;
    }
    proof {
        lemma_list_view(items@);
        assert(list_view(items@) =~= strs_view(vv));
    }
    JsonValue::Array(items)
}

fn field_pair(key: &str, value: JsonValue) -> (r: (String, JsonValue))
    ensures
        r.0@ == key@,
        r.1 == value,
{
    (owned(key), value)
}

/// The ids of `ids` that `allowed` holds, in order.
fn keep_listed(ids: &Vec<String>, allowed: &Vec<String>) -> (r: Vec<String>)
    ensures
        views(r@) == kept(views(ids@), views(allowed@).to_set()),
{
    let ghost vs = views(ids@);
    let mut out: Vec<String> = Vec::new();
    let mut i: usize = 0;
    assert(vs.take(0) =~= Seq::<Seq<char>>::empty());
    assert(views(out@) =~= Seq::<Seq<char>>::empty());
    while i < ids.len()
        invariant
            i <= ids@.len(),
            vs == views(ids@),
            views(out@) == kept(vs.take(i as int), views(allowed@).to_set()),
        decreases ids@.len() - i,
    {
        assert(vs.take(i as int + 1).drop_last() =~= vs.take(i as int));
        assert(vs.take(i as int + 1).last() == ids@[i as int]@);
        let ghost prev = views(out@);
        if contains_string(allowed, ids[i].as_str()) {
            out.push(ids[i].clone());
            assert(views(out@) =~= prev.push(ids@[i as int]@));
        }
        i = i + 1;
    }
    assert(vs.take(i as int) =~= vs);
    out
}

/// The ids of `ids` that some candidate offers, in order.
fn keep_offered(ids: &Vec<String>, cands: &[CandidateEvidence]) -> (r: Vec<String>)
    ensures
        views(r@) == kept(views(ids@), all_evidence(cands@)),
{
    let ghost vs = views(ids@);
    let mut out: Vec<String> = Vec::new();
    let mut i: usize = 0;
    assert(vs.take(0) =~= Seq::<Seq<char>>::empty());
    assert(views(out@) =~= Seq::<Seq<char>>::empty());
    while i < ids.len()
        invariant
            i <= ids@.len(),
            vs == views(ids@),
            views(out@) == kept(vs.take(i as int), all_evidence(cands@)),
        decreases ids@.len() - i,
    {
        assert(vs.take(i as int + 1).drop_last() =~= vs.take(i as int));
        assert(vs.take(i as int + 1).last() == ids@[i as int]@);
        let ghost prev = views(out@);
        if offered_by_any(cands, ids[i].as_str()) {
            out.push(ids[i].clone());
            assert(views(out@) =~= prev.push(ids@[i as int]@));
        }
        i = i + 1;
    }
    assert(vs.take(i as int) =~= vs);
    out
}

/// Every candidate's evidence ids, candidate by candidate.
fn collect_ids(cands: &[CandidateEvidence]) -> (r: Vec<String>)
    ensures
        views(r@) == all_ids(cands@),
{
    let mut out: Vec<String> = Vec::new();
    let mut i: usize = 0;
    assert(cands@.take(0) =~= Seq::<CandidateEvidence>::empty());
    assert(views(out@) =~= Seq::<Seq<char>>::empty());
    while i < cands.len()
        invariant
            i <= cands@.len(),
            views(out@) == all_ids(cands@.take(i as int)),
        decreases cands@.len() - i,
    {
        assert(cands@.take(i as int + 1).drop_last() =~= cands@.take(i as int));
        assert(cands@.take(i as int + 1).last() == cands@[i as int]);
        let ids = &cands[i].evidence_ids;
        let ghost prev = views(out@);
        let mut j: usize = 0;
        while j < ids.len()
            invariant
                j <= ids@.len(),
                views(out@) == prev + views(ids@).take(j as int),
            decreases ids@.len() - j,
        {
            let ghost before = views(out@);
            let c = ids[j].clone();
            out.push(c);
            assert(views(out@) =~= before.push(ids@[j as int]@));
            assert(views(ids@).take(j as int + 1) =~= views(ids@).take(j as int).push(ids@[j as int]@));
            assert(views(out@) =~= prev + views(ids@).take(j as int + 1));
            j = j + 1;
        }
        assert(views(ids@).take(j as int) =~= views(ids@));
        i = i + 1;
    }
    assert(cands@.take(i as int) =~= cands@);
    out
}

fn list_or_nothing(r: Result<Vec<String>, AiError>) -> (v: Vec<String>)
    ensures
        r matches Ok(x) ==> v == x,
        r is Err ==> v@.len() == 0,
{
    match r {
        Ok(x) => x,
        Err(_) => Vec::new(),
    }
}

/// The cleaned JSON of one recommendation.
fn clean_item_value(
    app_id: u32,
    fit: u64,
    conf: u64,
    evidence: Vec<String>,
    reasons: Vec<String>,
    cautions: Vec<String>,
) -> (r: JsonValue)
    ensures
        json_view(r) == clean_item_json(
            RankItemView {
                app_id,
                fit_score_bits: fit,
                confidence_bits: conf,
                evidence: views(evidence@),
                reasons: views(reasons@),
                cautions: views(cautions@),
            },
        ),
{
    let ghost (ev, rs, cs) = (views(evidence@), views(reasons@), views(cautions@));
    let mut fields: Vec<(String, JsonValue)> = Vec::new();
    fields.push(field_pair("app_id", JsonValue::Number(JsonNumber::PosInt(app_id as u64))));
    fields.push(field_pair("cautions", strs_json(cautions)));
    fields.push(field_pair("confidence", JsonValue::Number(JsonNumber::Float(conf))));
    fields.push(field_pair("fit_score", JsonValue::Number(JsonNumber::Float(fit))));
    fields.push(field_pair("reason_evidence_ids", strs_json(evidence)));
    fields.push(field_pair("reasons", strs_json(reasons)));
    proof {
        lemma_fields_view(fields@);
        let want = clean_item_json(
            RankItemView { app_id, fit_score_bits: fit, confidence_bits: conf, evidence: ev, reasons: rs, cautions: cs },
        );
        assert(fields_view(fields@) =~= want->Object_0);
    }
    JsonValue::Object(fields)
}

/// One recommendation as the sanitizer leaves it (see [`sanitize_item`]).
fn sanitize_one(item: &JsonValue, cands: &[CandidateEvidence]) -> (r: (Option<JsonValue>, bool))
    ensures
        r.1 == sanitize_item(json_view(*item), cands@).1,
        match sanitize_item(json_view(*item), cands@).0 {
            Some(v) => r.0 matches Some(j) && json_view(j) == clean_item_json(v),
            None => r.0 is None,
        },
{
    let fields = match item {
        JsonValue::Object(f) => f,
        _ => {
            return (None, true);
        },
    };
    let raw = match get_field(fields, "app_id") {
        Some(JsonValue::Number(JsonNumber::PosInt(raw))) => *raw,
        _ => {
            return (None, true);
        },
    };
    if raw > 0xFFFF_FFFF {
        return (None, true);
    }
    let app_id = raw as u32;
    let cand = match find_candidate(cands, app_id) {
        Some(c) => c,
        None => {
            return (None, true);
        },
    };
    let ev0 = list_or_nothing(string_list(fields, "reason_evidence_ids", 0, 12, 120));
    let ev1 = keep_listed(&ev0, &cand.evidence_ids);
    let reasons0 = list_or_nothing(string_list(fields, "reasons", 0, 6, 240));
    let cautions0 = list_or_nothing(string_list(fields, "cautions", 0, 4, 240));
    proof {
        assert(views(ev0@) == list_or_empty(string_list_spec(fields_view(fields@), "reason_evidence_ids"@, 0, 12, 120)));
        assert(views(reasons0@) == list_or_empty(string_list_spec(fields_view(fields@), "reasons"@, 0, 6, 240)));
        assert(views(cautions0@) == list_or_empty(string_list_spec(fields_view(fields@), "cautions"@, 0, 4, 240)));
    }
    let claims = (reasons0.len() > 0 || cautions0.len() > 0) && ev1.len() == 0;
    let none_offered = cand.evidence_ids.len() == 0;
    let stripped = ev1.len() != ev0.len() || claims;
    let ev = if claims && !none_offered {
        smallest_ids(&cand.evidence_ids, 3)
    } else {
        ev1
    };
    let reasons = if claims && none_offered {
        Vec::new()
    } else {
        reasons0
    };
    let cautions = if claims && none_offered {
        Vec::new()
    } else {
        cautions0
    };
    proof {
        assert(views(reasons@) =~= (if claims && none_offered { Seq::<Seq<char>>::empty() } else { views(reasons0@) }));
        assert(views(cautions@) =~= (if claims && none_offered { Seq::<Seq<char>>::empty() } else { views(cautions0@) }));
    }
    let fit = match unit_field(fields, "fit_score", 0) {
        Ok(b) => b,
        Err(_) => {
            return (None, true);
        },
    };
    let conf = match unit_field(fields, "confidence", 0) {
        Ok(b) => b,
        Err(_) => {
            return (None, true);
        },
    };
    (Some(clean_item_value(app_id, fit, conf, ev, reasons, cautions)), stripped)
}

/// Drop forged evidence ids and orphaned claims so the ranking can still be
/// used, then validate what is left. Returns the validated answer and
/// whether anything was stripped.
pub fn sanitize_rank_result(value: &JsonValue, candidates: &[CandidateEvidence], max_items: usize) -> (r: Result<
    (AiRankResult, bool),
    AiError,
>)
    ensures
        match sanitize_spec(json_view(*value), candidates@) {
            Err(m) => r matches Err(AiError::InvalidOutput(s)) && s@ == m,
            Ok((sv, stripped)) => match validate_spec(sv, candidates@, max_items as nat) {
                Ok(v) => r matches Ok((res, st)) && result_view(res) == v && st == stripped,
                Err(m) => r matches Err(AiError::InvalidOutput(s)) && s@ == m,
            },
        },
{
    let fields = match value {
        JsonValue::Object(f) => f,
        _ => {
            return Err(AiError::InvalidOutput(owned("root must be an object")));
        },
    };
    let recs = match get_field(fields, "recommendations") {
        Some(JsonValue::Array(a)) => a,
        _ => {
            return Err(AiError::InvalidOutput(owned("recommendations must be an array")));
        },
    };
    proof {
        lemma_list_view(recs@);
    }
    let ghost rv = list_view(recs@);
    let mut cleaned: Vec<JsonValue> = Vec::new();
    let mut stripped = false;
    let ghost mut kept_views: Seq<RankItemView> = Seq::empty();
    assert(rv.take(0) =~= Seq::<JsonView>::empty());
    let mut idx: usize = 0;
    while idx < recs.len()
        invariant
            idx <= recs@.len(),
            rv == list_view(recs@),
            rv.len() == recs@.len(),
            forall|k: int| 0 <= k < recs@.len() ==> #[trigger] rv[k] == json_view(recs@[k]),
            sanitized_items(rv.take(idx as int), candidates@) == (kept_views, stripped),
            cleaned@.len() == kept_views.len(),
            forall|k: int| 0 <= k < cleaned@.len() ==> #[trigger] json_view(cleaned@[k]) == clean_item_json(kept_views[k]),
        decreases recs@.len() - idx,
    {
        assert(rv.take(idx as int + 1).drop_last() =~= rv.take(idx as int));
        assert(rv.take(idx as int + 1).last() == json_view(recs@[idx as int]));
        let (one, st) = sanitize_one(&recs[idx], candidates);
        let ghost spec_one = sanitize_item(json_view(recs@[idx as int]), candidates@);
        match one {
            Some(j) => {
                cleaned.push(j);
                proof {
                    kept_views = kept_views.push(spec_one.0->0);
                }
            },
            None => {},
        }
        stripped = stripped || st;
        idx = idx + 1;
    }
    assert(rv.take(idx as int) =~= rv);
    if cleaned.len() == 0 && recs.len() > 0 {
        return Err(AiError::InvalidOutput(owned("no recommendations remained after sanitization")));
    }
    let summary0: Vec<char> = match get_field(fields, "summary") {
        Some(JsonValue::Str(s)) => {
            let raw = chars_of(s.as_str());
            trim_chars(raw.as_slice())
        },
        _ => Vec::new(),
    };
    let ids0 = list_or_nothing(root_string_list(fields, "summary_evidence_ids", 20, 120));
    let ids1 = keep_offered(&ids0, candidates);
    let ids_dropped = ids1.len() != ids0.len();
    let all = collect_ids(candidates);
    let markup = looks_like_html_or_url(summary0.as_slice());
    let bare = !markup && summary0.len() > 0 && ids1.len() == 0;
    let none_offered = all.len() == 0;
    let summary1: Vec<char> = if markup || (bare && none_offered) {
        Vec::new()
    } else {
        summary0
    };
    let ids: Vec<String> = if markup {
        Vec::new()
    } else if bare && !none_offered {
        smallest_ids(&all, 4)
    } else {
        ids1
    };
    let long = summary1.len() > 500;
    let summary: Vec<char> = if long {
        crate::text::slice_range(summary1.as_slice(), 0, 500)
    } else {
        summary1
    };
    let ghost sm = sanitized_summary(fields_view(fields@), candidates@);
    proof {
        assert(summary0@ == summary_of(fields_view(fields@)));
        assert(views(ids0@) == list_or_empty(root_string_list_spec(fields_view(fields@), "summary_evidence_ids"@, 20, 120)));
        assert(summary@ =~= sm.0);
        assert(views(ids@) =~= sm.1);
    }
    let stripped = stripped || ids_dropped || markup || bare || long;
    let ghost item_views = kept_views;
    let mut root: Vec<(String, JsonValue)> = Vec::new();
    proof {
        lemma_list_view(cleaned@);
        assert(list_view(cleaned@) =~= item_views.map_values(|x: RankItemView| clean_item_json(x)));
    }
    root.push(field_pair("recommendations", JsonValue::Array(cleaned)));
    root.push(field_pair("summary", JsonValue::Str(string_from_chars(summary.as_slice()))));
    root.push(field_pair("summary_evidence_ids", strs_json(ids)));
    proof {
        lemma_fields_view(root@);
        let want = sanitize_spec(json_view(*value), candidates@)->Ok_0.0;
        assert(fields_view(root@) =~= want->Object_0);
    }
    let sanitized = JsonValue::Object(root);
    match validate_rank_result(&sanitized, candidates, max_items) {
        Ok(result) => Ok((result, stripped)),
        Err(e) => Err(e),
    }
}


/// The field `key` of an object is present and not null.
pub open spec fn has_value(v: JsonView, key: Seq<char>) -> bool {
    match v {
        JsonView::Object(f) => match field_of(f, key) {
            Some(JsonView::Null) => false,
            Some(_) => true,
            None => false,
        },
        _ => false,
    }
}

/// The field `name` of an object is a string that is not blank.
pub open spec fn has_name(v: JsonView) -> bool {
    match v {
        JsonView::Object(f) => match field_of(f, "name"@) {
            Some(JsonView::Str(s)) => trim(s).len() > 0,
            _ => false,
        },
        _ => false,
    }
}

/// `prefix + app_id + tail`.
pub open spec fn id_text(prefix: Seq<char>, app_id: u32, tail: Seq<char>) -> Seq<char> {
    prefix + dec(app_id as nat) + tail
}

/// The evidence ids a model may cite for the candidate `app_id` besides the
/// ones it was given: ids for the candidate's identity, profile and reviews,
/// and ids for the name, party, multiplayer and release facts the prompt
/// item carries.
pub open spec fn alias_ids(app_id: u32, item: JsonView) -> Seq<Seq<char>> {
    let e = Seq::<char>::empty();
    seq![
        id_text("app:"@, app_id, ":identity"@),
        id_text("app:"@, app_id, ":profile"@),
        id_text("app:"@, app_id, e),
        id_text(e, app_id, e),
        id_text("review:"@, app_id, ":summary"@),
    ] + (if has_name(item) {
        seq![id_text("app:"@, app_id, ":name"@)]
    } else {
        Seq::empty()
    }) + (if has_value(item, "party"@) {
        seq![
            id_text("app:"@, app_id, ":party"@),
            id_text("feature:party:"@, app_id, e),
            id_text("feature:recommended_min_players:"@, app_id, e),
            id_text("feature:recommended_max_players:"@, app_id, e),
        ]
    } else {
        Seq::empty()
    }) + (if has_value(item, "multiplayer"@) {
        seq![
            id_text("app:"@, app_id, ":multiplayer"@),
            id_text("feature:dominant_mode:"@, app_id, e),
            id_text("feature:online_coop:"@, app_id, e),
            id_text("feature:private_session:"@, app_id, e),
            id_text("feature:self_hosted_server:"@, app_id, e),
            id_text("feature:crossplay:"@, app_id, e),
            id_text("feature:drop_in_out:"@, app_id, e),
        ]
    } else {
        Seq::empty()
    }) + (if has_value(item, "release_date"@) || has_value(item, "section"@) {
        seq![id_text("app:"@, app_id, ":release"@), id_text("feature:release_date:"@, app_id, e)]
    } else {
        Seq::empty()
    })
}

fn id_string(prefix: &str, app_id: u32, tail: &str) -> (r: String)
    ensures
        r@ == id_text(prefix@, app_id, tail@),
{
    let m = num_msg(prefix, app_id as u64, tail);
    string_from_chars(m.as_slice())
}

fn push_id(out: &mut Vec<String>, prefix: &str, app_id: u32, tail: &str)
    ensures
        views(final(out)@) == views(old(out)@).push(id_text(prefix@, app_id, tail@)),
{
    let ghost before = views(out@);
    out.push(id_string(prefix, app_id, tail));
    assert(views(out@) =~= before.push(id_text(prefix@, app_id, tail@)));
}

pub proof fn lemma_push_to_set(s: Seq<Seq<char>>, x: Seq<char>)
    ensures
        s.push(x).to_set() == s.to_set().insert(x),
{
    assert(s + seq![x] =~= s.push(x));
    Seq::lemma_to_set_insert_commutes(s, x);
}

/// Add `id` to `ids` unless it is there already.
fn insert_id(ids: &mut Vec<String>, id: String)
    ensures
        views(final(ids)@).to_set() == views(old(ids)@).to_set().insert(id@),
        views(old(ids)@).no_duplicates() ==> views(final(ids)@).no_duplicates(),
{
    if contains_string(ids, id.as_str()) {
        assert(views(ids@).to_set() =~= views(ids@).to_set().insert(id@));
        return;
    }
    let ghost before = views(ids@);
    let ghost iv = id@;
    ids.push(id);
    assert(views(ids@) =~= before.push(iv));
    proof {
        lemma_push_to_set(before, iv);
    }
}

/// Whether the field `key` of `item` is present and not null.
fn value_present(item: &JsonValue, key: &str) -> (r: bool)
    ensures
        r == has_value(json_view(*item), key@),
{
    match item {
        JsonValue::Object(f) => match get_field(f, key) {
            Some(JsonValue::Null) => false,
            Some(_) => true,
            None => false,
        },
        _ => false,
    }
}

/// Expand the evidence ids a model may cite for one candidate: `base` with
/// the ids of [`alias_ids`] added, each once.
pub fn expand_candidate_evidence_ids(app_id: u32, prompt_item: &JsonValue, base: Vec<String>) -> (r: Vec<String>)
    ensures
        views(r@).to_set() == views(base@).to_set() + alias_ids(app_id, json_view(*prompt_item)).to_set(),
        views(base@).no_duplicates() ==> views(r@).no_duplicates(),
{
    let ghost item = json_view(*prompt_item);
    let named = match prompt_item {
        JsonValue::Object(f) => match get_field(f, "name") {
            Some(JsonValue::Str(s)) => {
                let raw = chars_of(s.as_str());
                trim_chars(raw.as_slice()).len() > 0
            },
            _ => false,
        },
        _ => false,
    };
    assert(named == has_name(item));
    let mut extra: Vec<String> = Vec::new();
    push_id(&mut extra, "app:", app_id, ":identity");
    push_id(&mut extra, "app:", app_id, ":profile");
    push_id(&mut extra, "app:", app_id, "");
    push_id(&mut extra, "", app_id, "");
    push_id(&mut extra, "review:", app_id, ":summary");
    if named {
        push_id(&mut extra, "app:", app_id, ":name");
    }
    if value_present(prompt_item, "party") {
        push_id(&mut extra, "app:", app_id, ":party");
        push_id(&mut extra, "feature:party:", app_id, "");
        push_id(&mut extra, "feature:recommended_min_players:", app_id, "");
        push_id(&mut extra, "feature:recommended_max_players:", app_id, "");
    }
    if value_present(prompt_item, "multiplayer") {
        push_id(&mut extra, "app:", app_id, ":multiplayer");
        push_id(&mut extra, "feature:dominant_mode:", app_id, "");
        push_id(&mut extra, "feature:online_coop:", app_id, "");
        push_id(&mut extra, "feature:private_session:", app_id, "");
        push_id(&mut extra, "feature:self_hosted_server:", app_id, "");
        push_id(&mut extra, "feature:crossplay:", app_id, "");
        push_id(&mut extra, "feature:drop_in_out:", app_id, "");
    }
    if value_present(prompt_item, "release_date") || value_present(prompt_item, "section") {
        push_id(&mut extra, "app:", app_id, ":release");
        push_id(&mut extra, "feature:release_date:", app_id, "");
    }
    proof {
        reveal_strlit("");
        assert(views(extra@) =~= alias_ids(app_id, item));
    }
    let ghost ev = views(extra@);
    let mut ids = base;
    let mut i: usize = 0;
    assert(ev.take(0).to_set() =~= Set::<Seq<char>>::empty());
    assert(views(ids@).to_set() =~= views(base@).to_set() + ev.take(0).to_set());
    while i < extra.len()
        invariant
            i <= extra@.len(),
            ev == views(extra@),
            views(ids@).to_set() == views(base@).to_set() + ev.take(i as int).to_set(),
            views(base@).no_duplicates() ==> views(ids@).no_duplicates(),
        decreases extra@.len() - i,
    {
        insert_id(&mut ids, extra[i].clone());
        assert(ev.take(i as int + 1) =~= ev.take(i as int).push(ev[i as int]));
        proof {
            lemma_push_to_set(ev.take(i as int), ev[i as int]);
        }
        assert(views(ids@).to_set() =~= views(base@).to_set() + ev.take(i as int + 1).to_set());
        i = i + 1;
    }
    assert(ev.take(i as int) =~= ev);
    ids
}


/// A score's bits stand for a float in [0, 1].
pub open spec fn unit_float_bits(b: u64) -> bool {
    b <= 0x3FF0_0000_0000_0000 || b == 0x8000_0000_0000_0000
}

/// `item` is grounded in the candidates: it names one, its scores lie in
/// [0, 1], its evidence is what that candidate offers, and it makes no claim
/// without evidence.
pub open spec fn grounded_item(item: RankItemView, cands: Seq<CandidateEvidence>) -> bool {
    &&& candidate_for(cands, item.app_id) is Some
    &&& forall|k: int| 0 <= k < item.evidence.len() ==> evidence_set(candidate_for(cands, item.app_id)->0).contains(
        #[trigger] item.evidence[k],
    )
    &&& (item.reasons.len() > 0 || item.cautions.len() > 0) ==> item.evidence.len() > 0
    &&& unit_float_bits(item.fit_score_bits)
    &&& unit_float_bits(item.confidence_bits)
}

pub proof fn lemma_first_outside_none(ids: Seq<Seq<char>>, allowed: Set<Seq<char>>)
    requires
        first_outside(ids, allowed) is None,
    ensures
        forall|k: int| 0 <= k < ids.len() ==> allowed.contains(#[trigger] ids[k]),
    decreases ids.len(),
{
    if ids.len() > 0 {
        lemma_first_outside_none(ids.drop_first(), allowed);
        assert forall|k: int| 0 <= k < ids.len() implies allowed.contains(#[trigger] ids[k]) by {
            if k > 0 {
                assert(ids[k] == ids.drop_first()[k - 1]);
            }
        }
    }
}

pub proof fn lemma_checked_items_grounded(recs: Seq<JsonView>, cands: Seq<CandidateEvidence>)
    requires
        checked_items(recs, cands) is Ok,
    ensures
        ({
            let items = checked_items(recs, cands)->Ok_0;
            &&& items.len() == recs.len()
            &&& forall|i: int| 0 <= i < items.len() ==> grounded_item(#[trigger] items[i], cands)
            &&& forall|i: int, j: int| 0 <= i < j < items.len() ==> (#[trigger] items[i]).app_id != (#[trigger] items[j]).app_id
        }),
    decreases recs.len(),
{
    if recs.len() > 0 {
        let p = recs.drop_last();
        lemma_checked_items_grounded(p, cands);
        let out = checked_items(p, cands)->Ok_0;
        let seen = out.map_values(|x: RankItemView| x.app_id);
        let it = check_item(recs.last(), (recs.len() - 1) as nat, cands, seen)->Ok_0;
        let items = checked_items(recs, cands)->Ok_0;
        assert(items == out.push(it));
        match recs.last() {
            JsonView::Object(f) => {
                let c = candidate_for(cands, it.app_id)->0;
                lemma_first_outside_none(it.evidence, evidence_set(c));
            },
            _ => {},
        }
        assert(!seen.contains(it.app_id));
        assert forall|i: int, j: int| 0 <= i < j < items.len() implies (#[trigger] items[i]).app_id != (
        #[trigger] items[j]).app_id by {
            if j == items.len() - 1 {
                assert(seen[i] == out[i].app_id);
            }
        }
    }
}

/// An answer that validates is grounded: it has at most `max_items`
/// recommendations, of distinct candidates, each grounded in its
/// candidate's evidence; its summary is short and free of markup, cites
/// only evidence some candidate offers, and cites some when it is not empty.
pub proof fn lemma_validated_answer_grounded(v: JsonView, cands: Seq<CandidateEvidence>, max_items: nat)
    requires
        validate_spec(v, cands, max_items) is Ok,
    ensures
        ({
            let res = validate_spec(v, cands, max_items)->Ok_0;
            &&& res.items.len() <= max_items
            &&& forall|i: int| 0 <= i < res.items.len() ==> grounded_item(#[trigger] res.items[i], cands)
            &&& forall|i: int, j: int|
                0 <= i < j < res.items.len() ==> (#[trigger] res.items[i]).app_id != (#[trigger] res.items[j]).app_id
            &&& res.summary.len() <= 500
            &&& !looks_like_markup(res.summary)
            &&& forall|k: int| 0 <= k < res.summary_evidence.len() ==> all_evidence(cands).contains(
                #[trigger] res.summary_evidence[k],
            )
            &&& res.summary.len() > 0 ==> res.summary_evidence.len() > 0
        }),
{
    match v {
        JsonView::Object(f) => match field_of(f, "recommendations"@) {
            Some(JsonView::Array(recs)) => {
                lemma_checked_items_grounded(recs, cands);
                let ids = root_string_list_spec(f, "summary_evidence_ids"@, 20, 120)->Ok_0;
                lemma_first_outside_none(ids, all_evidence(cands));
            },
            _ => {},
        },
        _ => {},
    }
}


/// The ids of a model listing's items, in order, skipping blank ones; or the
/// message of the first item without a string id.
pub open spec fn listed_model_ids(items: Seq<JsonView>) -> Result<Seq<Seq<char>>, Seq<char>>
    decreases items.len(),
{
    if items.len() == 0 {
        Ok(Seq::empty())
    } else {
        match listed_model_ids(items.drop_last()) {
            Err(e) => Err(e),
            Ok(out) => match items.last() {
                JsonView::Object(f) => match field_of(f, "id"@) {
                    Some(JsonView::Str(s)) => if trim(s).len() == 0 {
                        Ok(out)
                    } else {
                        Ok(out.push(s))
                    },
                    _ => Err("models item missing id"@),
                },
                _ => Err("models item missing id"@),
            },
        }
    }
}

/// The model ids of an OpenAI-compatible `/v1/models` body, sorted and
/// without repeats.
pub open spec fn models_list_spec(v: JsonView) -> Result<Seq<Seq<char>>, Seq<char>> {
    match v {
        JsonView::Object(f) => match field_of(f, "data"@) {
            Some(JsonView::Array(items)) => match listed_model_ids(items) {
                Ok(ids) => Ok(least_k(ids, ids.len(), None)),
                Err(e) => Err(e),
            },
            _ => Err("models response missing data array"@),
        },
        _ => Err("models response missing data array"@),
    }
}

pub proof fn lemma_listed_ids_stays_failed(items: Seq<JsonView>, k: int)
    requires
        0 <= k <= items.len(),
        listed_model_ids(items.take(k)) is Err,
    ensures
        listed_model_ids(items) == listed_model_ids(items.take(k)),
    decreases items.len() - k,
{
    if k < items.len() {
        assert(items.take(k + 1).drop_last() =~= items.take(k));
        lemma_listed_ids_stays_failed(items, k + 1);
    } else {
        assert(items.take(k) =~= items);
    }
}

/// Parse an OpenAI-compatible `/v1/models` body into its model ids, sorted
/// and without repeats.
pub fn parse_models_list(payload: &JsonValue) -> (r: Result<Vec<String>, AiError>)
    ensures
        match models_list_spec(json_view(*payload)) {
            Ok(ids) => r matches Ok(v) && views(v@) == ids,
            Err(m) => r matches Err(AiError::InvalidOutput(s)) && s@ == m,
        },
        r matches Ok(v) ==> smallest(views(v@), views(v@).to_set(), views(v@).len()),
{
    let fields = match payload {
        JsonValue::Object(f) => f,
        _ => {
            return Err(AiError::InvalidOutput(owned("models response missing data array")));
        },
    };
    let items = match get_field(fields, "data") {
        Some(JsonValue::Array(items)) => items,
        _ => {
            return Err(AiError::InvalidOutput(owned("models response missing data array")));
        },
    };
    proof {
        lemma_list_view(items@);
    }
    let ghost iv = list_view(items@);
    let mut ids: Vec<String> = Vec::new();
    assert(iv.take(0) =~= Seq::<JsonView>::empty());
    assert(views(ids@) =~= Seq::<Seq<char>>::empty());
    let mut i: usize = 0;
    while i < items.len()
        invariant
            i <= items@.len(),
            iv == list_view(items@),
            iv.len() == items@.len(),
            forall|k: int| 0 <= k < items@.len() ==> #[trigger] iv[k] == json_view(items@[k]),
            listed_model_ids(iv.take(i as int)) == Ok::<Seq<Seq<char>>, Seq<char>>(views(ids@)),
            json_view(*payload) == JsonView::Object(fields_view(fields@)),
            field_of(fields_view(fields@), "data"@) == Some(JsonView::Array(iv)),
        decreases items@.len() - i,
    {
        assert(iv.take(i as int + 1).drop_last() =~= iv.take(i as int));
        assert(iv.take(i as int + 1).last() == json_view(items@[i as int]));
        let id = match &items[i] {
            JsonValue::Object(f) => match get_field(f, "id") {
                Some(JsonValue::Str(s)) => s,
                _ => {
                    proof {
                        lemma_listed_ids_stays_failed(iv, i as int + 1);
                    }
                    return Err(AiError::InvalidOutput(owned("models item missing id")));
                },
            },
            _ => {
                proof {
                    lemma_listed_ids_stays_failed(iv, i as int + 1);
                }
                return Err(AiError::InvalidOutput(owned("models item missing id")));
            },
        };
        let c = chars_of(id.as_str());
        if trim_chars(c.as_slice()).len() > 0 {
            let ghost before = views(ids@);
            ids.push(id.clone());
            assert(views(ids@) =~= before.push(id@));
        }
        i = i + 1;
    }
    assert(iv.take(i as int) =~= iv);
    let sorted = smallest_ids(&ids, ids.len());
    proof {
        lemma_least_k(views(ids@), views(ids@).len(), None);
        let r = views(sorted@);
        assert(r.to_set() =~= views(ids@).to_set()) by {
            assert forall|x: Seq<char>| r.to_set().contains(x) implies views(ids@).to_set().contains(x) by {
                let k = choose|k: int| 0 <= k < r.len() && r[k] == x;
            }
            assert forall|x: Seq<char>| views(ids@).to_set().contains(x) implies r.to_set().contains(x) by {
                if !r.contains(x) {
                    assert(r.len() == views(ids@).len());
                    lemma_unique_sorted_len(r, views(ids@));
                }
            }
        }
    }
    Ok(sorted)
}

/// A strictly increasing list of elements of `s` can be as long as `s` only
/// when it holds every element of `s`.
pub proof fn lemma_unique_sorted_len(r: Seq<Seq<char>>, s: Seq<Seq<char>>)
    requires
        forall|i: int| 0 <= i < r.len() ==> s.contains(#[trigger] r[i]),
        forall|i: int, j: int| 0 <= i < j < r.len() ==> lex_lt(#[trigger] r[i], #[trigger] r[j]),
    ensures
        r.len() <= s.to_set().len(),
        r.len() == s.len() ==> forall|x: Seq<char>| s.contains(x) ==> r.contains(x),
{
    assert forall|i: int, j: int| 0 <= i < r.len() && 0 <= j < r.len() && i != j implies r[i] != r[j] by {
        if i < j {
            lemma_lex_irreflexive(r[i]);
        } else {
            lemma_lex_irreflexive(r[j]);
        }
    }
    assert(r.no_duplicates());
    r.unique_seq_to_set();
    assert(r.to_set().subset_of(s.to_set()));
    vstd::set_lib::lemma_len_subset(r.to_set(), s.to_set());
    s.lemma_cardinality_of_set();
    if r.len() == s.len() {
        assert forall|x: Seq<char>| s.contains(x) implies r.contains(x) by {
            if !r.contains(x) {
                assert(r.to_set().insert(x).subset_of(s.to_set()));
                vstd::set_lib::lemma_len_subset(r.to_set().insert(x), s.to_set());
            }
        }
    }
}

/// Text is refused as markup exactly when, lower-cased, it holds an angle
/// bracket ("<" or ">"), a script scheme ("javascript:") or a web link
/// ("http://" or "https://").
pub proof fn lemma_markup_words(t: Seq<char>)
    ensures
        looks_like_markup(t) <==> (seq_contains(ascii_lower(t), "<"@) || seq_contains(ascii_lower(t), ">"@) || seq_contains(ascii_lower(t), "javascript:"@) || seq_contains(ascii_lower(t), "http://"@) || seq_contains(ascii_lower(t), "https://"@)),
{
    let h = ascii_lower(t);
    let w = seq!["<"@, ">"@, "javascript:"@, "http://"@, "https://"@];
    if seq_contains(h, "<"@) { assert(seq_contains(h, w[0])); }
    if seq_contains(h, ">"@) { assert(seq_contains(h, w[1])); }
    if seq_contains(h, "javascript:"@) { assert(seq_contains(h, w[2])); }
    if seq_contains(h, "http://"@) { assert(seq_contains(h, w[3])); }
    if seq_contains(h, "https://"@) { assert(seq_contains(h, w[4])); }
    if contains_any(h, w) {
        let k = choose|k: int| 0 <= k < w.len() && seq_contains(h, #[trigger] w[k]);
        if k == 0 {} else if k == 1 {} else if k == 2 {} else if k == 3 {} else {}
    }
}

/// No id lies outside `allowed` exactly when every id is allowed.
pub proof fn lemma_first_outside_none_iff(ids: Seq<Seq<char>>, allowed: Set<Seq<char>>)
    ensures
        first_outside(ids, allowed) is None <==> forall|i: int| 0 <= i < ids.len() ==> allowed.contains(#[trigger] ids[i]),
    decreases ids.len(),
{
    if ids.len() > 0 {
        lemma_first_outside_none_iff(ids.drop_first(), allowed);
        assert forall|i: int| 0 <= i < ids.drop_first().len() implies #[trigger] ids.drop_first()[i] == ids[i + 1] by {}
        if forall|i: int| 0 <= i < ids.len() ==> allowed.contains(#[trigger] ids[i]) {
            assert(allowed.contains(ids[0]));
            assert forall|i: int| 0 <= i < ids.drop_first().len() implies allowed.contains(#[trigger] ids.drop_first()[i]) by {
                assert(allowed.contains(ids[i + 1]));
            }
        }
        if first_outside(ids, allowed) is None {
            assert forall|i: int| 0 <= i < ids.len() implies allowed.contains(#[trigger] ids[i]) by {
                if i > 0 {
                    assert(ids.drop_first()[i - 1] == ids[i]);
                }
            }
        }
    }
}

/// The ids a model may cite for a candidate besides its own: always its
/// number, "app:<id>", "app:<id>:identity", "app:<id>:profile" and
/// "review:<id>:summary"; "app:<id>:name" when the prompt names it;
/// "feature:party:<id>" when it carries a party; "feature:online_coop:<id>"
/// and "feature:private_session:<id>" when it carries multiplayer facts;
/// "app:<id>:release" when it carries a release date or section.
pub proof fn lemma_alias_ids(app_id: u32, item: JsonView)
    ensures
        ({
            let a = alias_ids(app_id, item);
            let d = dec(app_id as nat);
            &&& a.contains(d)
            &&& a.contains("app:"@ + d)
            &&& a.contains("app:"@ + d + ":identity"@)
            &&& a.contains("app:"@ + d + ":profile"@)
            &&& a.contains("review:"@ + d + ":summary"@)
            &&& has_name(item) ==> a.contains("app:"@ + d + ":name"@)
            &&& has_value(item, "party"@) ==> a.contains("feature:party:"@ + d)
            &&& has_value(item, "multiplayer"@) ==> a.contains("feature:online_coop:"@ + d) && a.contains(
                "feature:private_session:"@ + d,
            )
            &&& (has_value(item, "release_date"@) || has_value(item, "section"@)) ==> a.contains("app:"@ + d + ":release"@)
        }),
{
    let a = alias_ids(app_id, item);
    let d = dec(app_id as nat);
    let e = Seq::<char>::empty();
    assert(id_text(e, app_id, e) =~= d);
    assert(id_text("app:"@, app_id, e) =~= "app:"@ + d);
    let n: int = if has_name(item) { 1 } else { 0 };
    let p: int = if has_value(item, "party"@) { 4 } else { 0 };
    let m: int = if has_value(item, "multiplayer"@) { 7 } else { 0 };
    assert(a[0] == "app:"@ + d + ":identity"@);
    assert(a[1] == "app:"@ + d + ":profile"@);
    assert(a[2] == "app:"@ + d);
    assert(a[3] == d);
    assert(a[4] == "review:"@ + d + ":summary"@);
    if has_name(item) {
        assert(a[5] == "app:"@ + d + ":name"@);
    }
    if has_value(item, "party"@) {
        assert(id_text("feature:party:"@, app_id, e) =~= "feature:party:"@ + d);
        assert(a[5 + n + 1] == "feature:party:"@ + d);
    }
    if has_value(item, "multiplayer"@) {
        assert(id_text("feature:online_coop:"@, app_id, e) =~= "feature:online_coop:"@ + d);
        assert(id_text("feature:private_session:"@, app_id, e) =~= "feature:private_session:"@ + d);
        assert(a[5 + n + p + 2] == "feature:online_coop:"@ + d);
        assert(a[5 + n + p + 3] == "feature:private_session:"@ + d);
    }
    if has_value(item, "release_date"@) || has_value(item, "section"@) {
        assert(a[5 + n + p + m] == "app:"@ + d + ":release"@);
    }
}

} // verus!
