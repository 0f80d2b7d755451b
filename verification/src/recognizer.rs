//! The HTML tag recognizer: a pure function that decides whether a raw
//! HTML-like fragment is an opening or self-closing tag, a closing tag,
//! or neither, and extracts the tag name and attributes.
//!
//! The fragment is trimmed of ASCII whitespace first. An opening tag has
//! the shape `<name attrs>` or `<name attrs/>`: `name` is a non-empty run
//! of letters, digits and hyphens directly after `<`, the single `>`
//! stands at the very end, and the tag is self-closing exactly when the
//! character before that `>` is `/`. A closing tag has the shape
//! `</anything>`, its name being the trimmed interior. Attribute parsing
//! is permissive: it scans for `key`, `key="value"`, `key='value'` or
//! `key=bare` tokens and skips anything malformed instead of rejecting
//! the tag; a key without a value is recorded as a bare flag, and when a
//! key repeats, the last value wins.

use vstd::prelude::*;

use crate::ast::PropValue;
use crate::ast::Prop;
use crate::ast::SpecPropValue;
use crate::ast::has_key;
use crate::ast::key_index;
use crate::ast::props_view;
use crate::ast::unique_keys;
use crate::ast::upsert;
use crate::text::bare_char;
use crate::text::chars_to_string;
use crate::text::first_non_space;
use crate::text::is_bare_char;
use crate::text::is_name_char;
use crate::text::name_char;
use crate::text::spec_trim;
use crate::text::str_chars;
use crate::text::sub_vec;
use crate::text::trim_range;

verus! {

/// What the recognizer reports of a fragment.
#[derive(Debug, PartialEq)]
pub enum Recognized {
    /// An opening (or self-closing) tag with its name and attributes.
    Opening { tag: String, props: Vec<Prop>, self_closing: bool },
    /// A closing tag with its name.
    Closing { tag: String },
    /// Neither grammar matched; the fragment is opaque text.
    Unrecognized,
}

/// The spec-level mirror of `Recognized`.
pub enum SpecRecognized {
    Opening { tag: Seq<char>, props: Seq<(Seq<char>, SpecPropValue)>, self_closing: bool },
    Closing { tag: Seq<char> },
    Unrecognized,
}

impl View for Recognized {
    type V = SpecRecognized;

    open spec fn view(&self) -> SpecRecognized {
        match self {
            Recognized::Opening { tag, props, self_closing } => SpecRecognized::Opening {
                tag: tag@,
                props: props_view(props@),
                self_closing: *self_closing,
            },
            Recognized::Closing { tag } => SpecRecognized::Closing { tag: tag@ },
            Recognized::Unrecognized => SpecRecognized::Unrecognized,
        }
    }
}

/// The end of the run of name characters that starts at `i`.
pub open spec fn name_end(s: Seq<char>, i: int) -> int
    decreases s.len() - i,
{
    if i >= s.len() {
        s.len() as int
    } else if is_name_char(s[i]) {
        name_end(s, i + 1)
    } else {
        i
    }
}

/// The end of the run of bare-value characters that starts at `i`.
pub open spec fn bare_end(s: Seq<char>, i: int) -> int
    decreases s.len() - i,
{
    if i >= s.len() {
        s.len() as int
    } else if is_bare_char(s[i]) {
        bare_end(s, i + 1)
    } else {
        i
    }
}

/// The first index at or after `i` holding `c`, or the length.
pub open spec fn find_char(s: Seq<char>, i: int, c: char) -> int
    decreases s.len() - i,
{
    if i >= s.len() {
        s.len() as int
    } else if s[i] == c {
        i
    } else {
        find_char(s, i + 1, c)
    }
}

proof fn lemma_name_end_bounds(s: Seq<char>, i: int)
    requires
        i <= s.len(),
    ensures
        i <= name_end(s, i) <= s.len(),
        i < s.len() && is_name_char(s[i]) ==> name_end(s, i) >= i + 1,
    decreases s.len() - i,
{
    if i < s.len() && is_name_char(s[i]) {
        lemma_name_end_bounds(s, i + 1);
    }
}

proof fn lemma_bare_end_bounds(s: Seq<char>, i: int)
    requires
        i <= s.len(),
    ensures
        i <= bare_end(s, i) <= s.len(),
        i < s.len() && is_bare_char(s[i]) ==> bare_end(s, i) >= i + 1,
    decreases s.len() - i,
{
    if i < s.len() && is_bare_char(s[i]) {
        lemma_bare_end_bounds(s, i + 1);
    }
}

proof fn lemma_find_char_bounds(s: Seq<char>, i: int, c: char)
    requires
        i <= s.len(),
    ensures
        i <= find_char(s, i, c) <= s.len(),
    decreases s.len() - i,
{
    if i < s.len() && s[i] != c {
        lemma_find_char_bounds(s, i + 1, c);
    }
}

/// The raw attribute captures found in `s` from position `i` on, in
/// capture order, before duplicate keys are merged.
pub open spec fn scan_attrs(s: Seq<char>, i: int) -> Seq<(Seq<char>, SpecPropValue)>
    decreases s.len() - i,
    via scan_attrs_dec
{
    if i >= s.len() {
        Seq::empty()
    } else if !is_name_char(s[i]) {
        scan_attrs(s, i + 1)
    } else {
        let j = name_end(s, i);
        let key = s.subrange(i, j);
        if j < s.len() && s[j] == '=' {
            if j + 1 < s.len() && (s[j + 1] == '"' || s[j + 1] == '\'') {
                let k = find_char(s, j + 2, s[j + 1]);
                if k < s.len() {
                    seq![(key, SpecPropValue::Str(s.subrange(j + 2, k)))] + scan_attrs(s, k + 1)
                } else {
                    // no closing quote: the value falls back to a bare
                    // token, which starts at the quote character itself
                    let b = bare_end(s, j + 1);
                    seq![(key, SpecPropValue::Str(s.subrange(j + 1, b)))] + scan_attrs(s, b)
                }
            } else {
                let b = bare_end(s, j + 1);
                if b > j + 1 {
                    seq![(key, SpecPropValue::Str(s.subrange(j + 1, b)))] + scan_attrs(s, b)
                } else {
                    // `=` not followed by any value: the key stands alone
                    seq![(key, SpecPropValue::Flag)] + scan_attrs(s, j)
                }
            }
        } else {
            seq![(key, SpecPropValue::Flag)] + scan_attrs(s, j)
        }
    }
}

#[via_fn]
proof fn scan_attrs_dec(s: Seq<char>, i: int) {
    if i < s.len() && is_name_char(s[i]) {
        lemma_name_end_bounds(s, i);
        let j = name_end(s, i);
        if j < s.len() && s[j] == '=' {
            if j + 1 < s.len() && (s[j + 1] == '"' || s[j + 1] == '\'') {
                lemma_find_char_bounds(s, j + 2, s[j + 1]);
                lemma_bare_end_bounds(s, j + 1);
            } else {
                lemma_bare_end_bounds(s, j + 1);
            }
        }
    }
}

/// Merge the captures into `acc`, one after the other, the last value of
/// a repeated key winning.
pub open spec fn upsert_all(
    acc: Seq<(Seq<char>, SpecPropValue)>,
    caps: Seq<(Seq<char>, SpecPropValue)>,
) -> Seq<(Seq<char>, SpecPropValue)>
    decreases caps.len(),
{
    if caps.len() == 0 {
        acc
    } else {
        upsert_all(upsert(acc, caps[0].0, caps[0].1), caps.drop_first())
    }
}

/// The attribute map extracted from the attribute region `s`.
pub open spec fn spec_attrs(s: Seq<char>) -> Seq<(Seq<char>, SpecPropValue)> {
    upsert_all(Seq::empty(), scan_attrs(s, 0))
}

/// The trimmed fragment matches the opening-or-self-closing grammar:
/// `<`, a name character, no interior `>`, and a final `>`.
pub open spec fn open_form(s: Seq<char>) -> bool {
    &&& s.len() >= 3
    &&& s[0] == '<'
    &&& is_name_char(s[1])
    &&& s[s.len() - 1] == '>'
    &&& forall|k: int| 1 <= k < s.len() - 1 ==> s[k] != '>'
}

/// Whether the opening tag is self-closing: a `/` directly before the
/// final `>`.
pub open spec fn spec_self_closing(s: Seq<char>) -> bool {
    s[s.len() - 2] == '/'
}

/// The attribute region of an opening tag: what stands between the tag
/// name and the final `>` (or the final `/>`).
pub open spec fn attr_region(s: Seq<char>) -> Seq<char> {
    let e = if spec_self_closing(s) {
        s.len() - 2
    } else {
        s.len() - 1
    };
    s.subrange(name_end(s, 1), e as int)
}

/// The trimmed fragment matches the closing-tag grammar `</...>`.
pub open spec fn close_form(s: Seq<char>) -> bool {
    &&& s.len() >= 3
    &&& s[0] == '<'
    &&& s[1] == '/'
    &&& s[s.len() - 1] == '>'
}

/// What the recognizer reports of the raw fragment `raw`: the whole
/// decision, as a function of the characters alone.
pub open spec fn spec_recognize(raw: Seq<char>) -> SpecRecognized {
    let s = spec_trim(raw);
    if open_form(s) {
        SpecRecognized::Opening {
            tag: s.subrange(1, name_end(s, 1)),
            props: spec_attrs(attr_region(s)),
            self_closing: spec_self_closing(s),
        }
    } else if close_form(s) {
        SpecRecognized::Closing { tag: spec_trim(s.subrange(2, s.len() - 1)) }
    } else {
        SpecRecognized::Unrecognized
    }
}

proof fn lemma_key_index_props(props: Seq<(Seq<char>, SpecPropValue)>, key: Seq<char>)
    requires
        has_key(props, key),
    ensures
        0 <= key_index(props, key) < props.len(),
        props[key_index(props, key)].0 == key,
    decreases props.len(),
{
    if props.len() > 0 && props[0].0 != key {
        let i = choose|i: int| 0 <= i < props.len() && (#[trigger] props[i]).0 == key;
        assert(props.drop_first()[i - 1].0 == key);
        lemma_key_index_props(props.drop_first(), key);
    }
}

proof fn lemma_upsert_unique(
    acc: Seq<(Seq<char>, SpecPropValue)>,
    key: Seq<char>,
    value: SpecPropValue,
)
    requires
        unique_keys(acc),
    ensures
        unique_keys(upsert(acc, key, value)),
{
    if has_key(acc, key) {
        lemma_key_index_props(acc, key);
        let r = upsert(acc, key, value);
        assert forall|i: int, j: int| 0 <= i < j < r.len() implies (#[trigger] r[i]).0 != (
        #[trigger] r[j]).0 by {
            assert(r[i].0 == acc[i].0);
            assert(r[j].0 == acc[j].0);
        }
    } else {
        let r = acc.push((key, value));
        assert forall|i: int, j: int| 0 <= i < j < r.len() implies (#[trigger] r[i]).0 != (
        #[trigger] r[j]).0 by {
            if j < acc.len() {
                assert(r[i].0 == acc[i].0 && r[j].0 == acc[j].0);
            } else {
                assert(r[i].0 == acc[i].0 && r[j].0 == key);
                assert(!has_key(acc, key));
            }
        }
    }
}

proof fn lemma_upsert_all_unique(
    acc: Seq<(Seq<char>, SpecPropValue)>,
    caps: Seq<(Seq<char>, SpecPropValue)>,
)
    requires
        unique_keys(acc),
    ensures
        unique_keys(upsert_all(acc, caps)),
    decreases caps.len(),
{
    if caps.len() > 0 {
        lemma_upsert_unique(acc, caps[0].0, caps[0].1);
        lemma_upsert_all_unique(upsert(acc, caps[0].0, caps[0].1), caps.drop_first());
    }
}

/// Attribute keys are unique: however often a key repeats in the
/// fragment, the extracted attribute map holds one entry per key.
pub proof fn lemma_attrs_unique(region: Seq<char>)
    ensures
        unique_keys(spec_attrs(region)),
{
    lemma_upsert_all_unique(Seq::empty(), scan_attrs(region, 0));
}

proof fn lemma_key_index_found(
    props: Seq<(Seq<char>, SpecPropValue)>,
    key: Seq<char>,
    idx: int,
)
    requires
        0 <= idx < props.len(),
        props[idx].0 == key,
        forall|x: int| 0 <= x < idx ==> (#[trigger] props[x]).0 != key,
    ensures
        has_key(props, key),
        key_index(props, key) == idx,
    decreases idx,
{
    if idx > 0 {
        lemma_key_index_found(props.drop_first(), key, idx - 1);
    }
}

/// Record `key = value` into `props`, replacing the value of an existing
/// entry in place, or appending a new entry.
#[verifier::loop_isolation(false)]
fn upsert_exec(props: &mut Vec<Prop>, key: String, value: PropValue)
    requires
        unique_keys(props_view(old(props)@)),
    ensures
        props_view(final(props)@) == upsert(props_view(old(props)@), key@, value@),
        unique_keys(props_view(final(props)@)),
{
    let ghost pv = props_view(props@);
    let mut idx: usize = 0;
    while idx < props.len()
        invariant
            0 <= idx <= props@.len(),
            props@ == old(props)@,
            forall|x: int| 0 <= x < idx ==> (#[trigger] props@[x])@.0 != key@,
        decreases props@.len() - idx,
    {
        if props[idx].key == key {
            proof {
                assert(pv.len() == props@.len());
                assert(pv[idx as int] == props@[idx as int]@);
                assert forall|x: int| 0 <= x < idx implies (#[trigger] pv[x]).0 != key@ by {
                    assert(pv[x] == props@[x]@);
                }
                lemma_key_index_found(pv, key@, idx as int);
            }
            let np = Prop { key, value };
            let p = props.remove(idx);
            props.insert(idx, np);
            proof {
                let newv = props_view(props@);
                let target = upsert(pv, key@, value@);
                assert(newv.len() == target.len());
                assert forall|m: int| 0 <= m < newv.len() implies newv[m] == target[m] by {
                    if m != idx {
                        assert(props@[m] == old(props)@[m]);
                        assert(newv[m] == pv[m]);
                    } else {
                        assert(props@[m] == np);
                    }
                }
                assert(newv =~= target);
            }
            return ;
        }
        idx = idx + 1;
    }
    proof {
        assert forall|x: int| 0 <= x < pv.len() implies (#[trigger] pv[x]).0 != key@ by {
            assert(pv[x] == props@[x]@);
        }
        assert(!has_key(pv, key@));
    }
    let np = Prop { key, value };
    props.push(np);
    proof {
        let newv = props_view(props@);
        let target = upsert(pv, key@, value@);
        assert(newv.len() == target.len());
        assert forall|m: int| 0 <= m < newv.len() implies newv[m] == target[m] by {
            if m < pv.len() {
                assert(props@[m] == old(props)@[m]);
            } else {
                assert(props@[m] == np);
            }
        }
        assert(newv =~= target);
    }
}

/// Parse the attribute region `r` into an attribute map.
#[verifier::loop_isolation(false)]
fn parse_attrs(r: &Vec<char>) -> (props: Vec<Prop>)
    ensures
        props_view(props@) == spec_attrs(r@),
        unique_keys(props_view(props@)),
{
    let n = r.len();
    let mut props: Vec<Prop> = Vec::new();
    proof {
        assert(props_view(props@) =~= Seq::<(Seq<char>, SpecPropValue)>::empty());
    }
    let mut i: usize = 0;
    while i < n
        invariant
            0 <= i <= n == r@.len(),
            unique_keys(props_view(props@)),
            upsert_all(props_view(props@), scan_attrs(r@, i as int)) == spec_attrs(r@),
        decreases n - i,
    {
        if !name_char(r[i]) {
            i = i + 1;
        } else {
            let mut j: usize = i + 1;
            while j < n && name_char(r[j])
                invariant
                    i < j <= n == r@.len(),
                    name_end(r@, i as int) == name_end(r@, j as int),
                    is_name_char(r@[i as int]),
                decreases n - j,
            {
                j = j + 1;
            }
            assert(name_end(r@, i as int) == j);
            let key_chars = sub_vec(r, i, j);
            let key = chars_to_string(&key_chars);
            let mut value: PropValue = PropValue::Flag;
            let mut next: usize = j;
            if j < n && r[j] == '=' {
                if j + 1 < n && (r[j + 1] == '"' || r[j + 1] == '\'') {
                    let q = r[j + 1];
                    let mut k: usize = j + 2;
                    while k < n && r[k] != q
                        invariant
                            j + 2 <= k <= n == r@.len(),
                            find_char(r@, j + 2 as int, q) == find_char(r@, k as int, q),
                        decreases n - k,
                    {
                        k = k + 1;
                    }
                    assert(find_char(r@, j + 2 as int, q) == k);
                    if k < n {
                        let val_chars = sub_vec(r, j + 2, k);
                        value = PropValue::Str(chars_to_string(&val_chars));
                        next = k + 1;
                    } else {
                        let mut b: usize = j + 1;
                        while b < n && bare_char(r[b])
                            invariant
                                j + 1 <= b <= n == r@.len(),
                                bare_end(r@, j + 1 as int) == bare_end(r@, b as int),
                            decreases n - b,
                        {
                            b = b + 1;
                        }
                        assert(bare_end(r@, j + 1 as int) == b);
                        assert(b > j + 1);
                        let val_chars = sub_vec(r, j + 1, b);
                        value = PropValue::Str(chars_to_string(&val_chars));
                        next = b;
                    }
                } else {
                    let mut b: usize = j + 1;
                    while b < n && bare_char(r[b])
                        invariant
                            j + 1 <= b <= n == r@.len(),
                            bare_end(r@, j + 1 as int) == bare_end(r@, b as int),
                        decreases n - b,
                    {
                        b = b + 1;
                    }
                    assert(bare_end(r@, j + 1 as int) == b);
                    if b > j + 1 {
                        let val_chars = sub_vec(r, j + 1, b);
                        value = PropValue::Str(chars_to_string(&val_chars));
                        next = b;
                    }
                }
            }
            proof {
                let caps = scan_attrs(r@, i as int);
                assert(caps[0] == (r@.subrange(i as int, j as int), value@));
                assert(caps.drop_first() =~= scan_attrs(r@, next as int));
            }
            upsert_exec(&mut props, key, value);
            i = next;
        }
    }
    props
}

/// Recognize one raw HTML-like fragment: an opening or self-closing tag
/// with its name and attribute map, a closing tag with its name, or
/// nothing. The decision is a pure function of the fragment's
/// characters.
#[verifier::loop_isolation(false)]
pub fn parse_html_tag(fragment: &str) -> (r: Recognized)
    ensures
        r@ == spec_recognize(fragment@),
        r@ matches SpecRecognized::Opening { props, .. } ==> unique_keys(props),
{
    let cs = str_chars(fragment);
    let (lo, hi) = trim_range(&cs);
    let t = sub_vec(&cs, lo, hi);
    assert(t@ == spec_trim(cs@));
    let n = t.len();
    if n >= 3 && t[0] == '<' && name_char(t[1]) && t[n - 1] == '>' {
        let mut k: usize = 1;
        let mut has_gt: bool = false;
        while k < n - 1
            invariant
                1 <= k <= n - 1,
                n == t@.len() >= 3,
                has_gt == exists|x: int| 1 <= x < k && t@[x] == '>',
            decreases n - k,
        {
            if t[k] == '>' {
                has_gt = true;
            }
            k = k + 1;
        }
        if has_gt {
            return Recognized::Unrecognized;
        }
        assert(open_form(t@));
        let mut j: usize = 2;
        while j < n && name_char(t[j])
            invariant
                2 <= j <= n == t@.len(),
                name_end(t@, 1) == name_end(t@, j as int),
                forall|x: int| 1 <= x < j ==> is_name_char(#[trigger] t@[x]),
            decreases n - j,
        {
            j = j + 1;
        }
        assert(name_end(t@, 1) == j);
        let tag_chars = sub_vec(&t, 1, j);
        let tag = chars_to_string(&tag_chars);
        let self_closing = t[n - 2] == '/';
        let e = if self_closing {
            n - 2
        } else {
            n - 1
        };
        assert(j <= e) by {
            if self_closing && j > n - 2 {
                assert(is_name_char(t@[n - 2]));
            }
        }
        let region = sub_vec(&t, j, e);
        let props = parse_attrs(&region);
        Recognized::Opening { tag, props, self_closing }
    } else if n >= 3 && t[0] == '<' && t[1] == '/' && t[n - 1] == '>' {
        assert(!open_form(t@));
        let inner = sub_vec(&t, 2, n - 1);
        let (ilo, ihi) = trim_range(&inner);
        let name_chars = sub_vec(&inner, ilo, ihi);
        let tag = chars_to_string(&name_chars);
        assert(tag@ == spec_trim(t@.subrange(2, t@.len() - 1)));
        Recognized::Closing { tag }
    } else {
        assert(!open_form(t@) && !close_form(t@));
        Recognized::Unrecognized
    }
}

} // verus!
