//! Attribute lists in the shape a renderer's spread diff requires.
//!
//! A spread attribute list must be sorted by attribute name and hold at most one entry per name
//! and namespace. [`normalize_attributes`] and [`merge_attributes`] produce exactly that shape,
//! keeping the last entry for each name.

use vstd::prelude::*;
use vstd::string::StringSliceAdditionalSpecFns;

verus! {

/// One attribute of a rendered element, with a value of any representation.
///
/// Only `name` and `namespace` take part in ordering and deduplication; the value is carried
/// through untouched.
pub struct Attribute<V> {
    /// The attribute's name.
    pub name: &'static str,
    /// The attribute's value.
    pub value: V,
    /// The attribute's namespace, if any.
    pub namespace: Option<&'static str>,
    /// Whether the renderer should always write the attribute.
    pub volatile: bool,
}

/// An attribute value: text, a boolean attribute, or a value of another kind that this crate
/// carries through without reading it.
#[derive(Clone, Debug, PartialEq, Eq)]
pub enum AttributeValue {
    /// A text value, such as an id or `"true"`.
    Text(String),
    /// A boolean attribute, such as native `required`.
    Bool(bool),
    /// A value of another kind (a number, a listener), named by the caller's handle for it.
    Handle(u64),
}

/// The mathematical value of an [`AttributeValue`].
pub enum AttributeValueView {
    /// A text value, as its characters.
    Text(Seq<char>),
    /// A boolean attribute.
    Bool(bool),
    /// A value of another kind, by the caller's handle.
    Handle(u64),
}

impl View for AttributeValue {
    type V = AttributeValueView;

    open spec fn view(&self) -> AttributeValueView {
        match self {
            AttributeValue::Text(text) => AttributeValueView::Text(text@),
            AttributeValue::Bool(flag) => AttributeValueView::Bool(*flag),
            AttributeValue::Handle(handle) => AttributeValueView::Handle(*handle),
        }
    }
}

impl<V: View> View for Attribute<V> {
    type V = Attribute<V::V>;

    open spec fn view(&self) -> Attribute<V::V> {
        Attribute {
            name: self.name,
            value: self.value@,
            namespace: self.namespace,
            volatile: self.volatile,
        }
    }
}

/// The views of an attribute list, entry by entry.
pub open spec fn attribute_views<V: View>(s: Seq<Attribute<V>>) -> Seq<Attribute<V::V>> {
    s.map_values(|a: Attribute<V>| a@)
}

impl<V> Attribute<V> {
    /// Creates an attribute from its parts.
    pub fn new(name: &'static str, value: V, namespace: Option<&'static str>, volatile: bool) -> (r: Self)
        ensures
            r.name == name,
            r.value == value,
            r.namespace == namespace,
            r.volatile == volatile,
    {
        Attribute { name, value, namespace, volatile }
    }
}

/// The three-way outcome of comparing two attribute keys.
#[derive(Clone, Copy, Debug, PartialEq, Eq)]
pub enum KeyOrder {
    /// The first key sorts before the second.
    Less,
    /// Both keys name the same attribute.
    Equal,
    /// The first key sorts after the second.
    Greater,
}

/// Lexicographic order on byte strings, the order `str` uses.
#[verifier::opaque]
pub open spec fn bytes_lt(a: Seq<u8>, b: Seq<u8>) -> bool {
    exists|i: int|
        #![trigger a.take(i), b.take(i)]
        0 <= i <= a.len() && i <= b.len() && a.take(i) =~= b.take(i) && ((i == a.len() && i
            < b.len()) || (i < a.len() && i < b.len() && a[i] < b[i]))
}

/// The bytes of an optional namespace.
pub open spec fn namespace_bytes(namespace: Option<&'static str>) -> Option<Seq<u8>> {
    match namespace {
        Some(n) => Some(n.spec_bytes()),
        None => None,
    }
}

/// Order on optional namespaces: no namespace sorts first, then namespaces by their bytes.
pub open spec fn namespace_lt(a: Option<Seq<u8>>, b: Option<Seq<u8>>) -> bool {
    match (a, b) {
        (None, Some(_)) => true,
        (Some(x), Some(y)) => bytes_lt(x, y),
        _ => false,
    }
}

/// Two attributes share a key when their names and namespaces are byte-for-byte equal.
pub open spec fn same_key<V>(a: Attribute<V>, b: Attribute<V>) -> bool {
    &&& a.name.spec_bytes() == b.name.spec_bytes()
    &&& namespace_bytes(a.namespace) == namespace_bytes(b.namespace)
}

/// The order attribute lists are sorted in: by name, then by namespace.
#[verifier::opaque]
pub open spec fn key_lt<V>(a: Attribute<V>, b: Attribute<V>) -> bool {
    ||| bytes_lt(a.name.spec_bytes(), b.name.spec_bytes())
    ||| (a.name.spec_bytes() == b.name.spec_bytes() && namespace_lt(
        namespace_bytes(a.namespace),
        namespace_bytes(b.namespace),
    ))
}

proof fn lemma_bytes_lt_irreflexive(a: Seq<u8>)
    ensures
        !bytes_lt(a, a),
{
    reveal(bytes_lt);
}

proof fn lemma_bytes_lt_transitive(a: Seq<u8>, b: Seq<u8>, c: Seq<u8>)
    requires
        bytes_lt(a, b),
        bytes_lt(b, c),
    ensures
        bytes_lt(a, c),
{
    reveal(bytes_lt);
    let i = choose|i: int|
        #![trigger a.take(i), b.take(i)]
        0 <= i <= a.len() && i <= b.len() && a.take(i) =~= b.take(i) && ((i == a.len() && i
            < b.len()) || (i < a.len() && i < b.len() && a[i] < b[i]));
    let j = choose|j: int|
        #![trigger b.take(j), c.take(j)]
        0 <= j <= b.len() && j <= c.len() && b.take(j) =~= c.take(j) && ((j == b.len() && j
            < c.len()) || (j < b.len() && j < c.len() && b[j] < c[j]));
    if i <= j {
        assert(a.take(i) =~= c.take(i)) by {
            assert forall|k: int| 0 <= k < i implies a[k] == c[k] by {
                assert(a.take(i)[k] == b.take(i)[k]);
                assert(b.take(j)[k] == c.take(j)[k]);
            }
        }
        if i < j && i < a.len() {
            assert(b.take(j)[i] == c.take(j)[i]);
        }
        assert(a.take(i) =~= c.take(i) && ((i == a.len() && i < c.len()) || (i < a.len() && i
            < c.len() && a[i] < c[i])));
    } else {
        assert(a.take(j) =~= c.take(j)) by {
            assert forall|k: int| 0 <= k < j implies a[k] == c[k] by {
                assert(a.take(i)[k] == b.take(i)[k]);
                assert(b.take(j)[k] == c.take(j)[k]);
            }
        }
        assert(a.take(i)[j] == b.take(i)[j]);
        assert(a.take(j) =~= c.take(j) && j < a.len() && j < c.len() && a[j] < c[j]);
    }
}

/// Compares two byte strings lexicographically.
fn compare_bytes(a: &[u8], b: &[u8]) -> (r: KeyOrder)
    ensures
        r == KeyOrder::Less ==> bytes_lt(a@, b@),
        r == KeyOrder::Equal ==> a@ == b@,
        r == KeyOrder::Greater ==> bytes_lt(b@, a@),
{
    reveal(bytes_lt);
    let mut i: usize = 0;
    while i < a.len() && i < b.len()
        invariant
            i <= a@.len(),
            i <= b@.len(),
            a@.take(i as int) =~= b@.take(i as int),
        decreases a@.len() - i,
    {
        proof {
            reveal(bytes_lt);
        }
        if a[i] != b[i] {
            if a[i] < b[i] {
                assert(a@.take(i as int) =~= b@.take(i as int));
                return KeyOrder::Less;
            } else {
                assert(b@.take(i as int) =~= a@.take(i as int));
                return KeyOrder::Greater;
            }
        }
        assert(a@.take(i + 1) =~= a@.take(i as int).push(a@[i as int]));
        assert(b@.take(i + 1) =~= b@.take(i as int).push(b@[i as int]));
        i = i + 1;
    }
    if a.len() == b.len() {
        assert(a@ =~= a@.take(i as int));
        assert(b@ =~= b@.take(i as int));
        KeyOrder::Equal
    } else if a.len() < b.len() {
        assert(a@.take(i as int) =~= b@.take(i as int));
        KeyOrder::Less
    } else {
        assert(b@.take(i as int) =~= a@.take(i as int));
        KeyOrder::Greater
    }
}


/// Compares the keys of two attributes: by name, then by namespace.
pub fn compare_keys<V>(a: &Attribute<V>, b: &Attribute<V>) -> (r: KeyOrder)
    ensures
        r == KeyOrder::Less ==> key_lt(*a, *b),
        r == KeyOrder::Equal ==> same_key(*a, *b),
        r == KeyOrder::Greater ==> key_lt(*b, *a),
{
    reveal(key_lt);
    match compare_bytes(a.name.as_bytes(), b.name.as_bytes()) {
        KeyOrder::Equal => match (a.namespace, b.namespace) {
            (None, None) => KeyOrder::Equal,
            (None, Some(_)) => KeyOrder::Less,
            (Some(_), None) => KeyOrder::Greater,
            (Some(x), Some(y)) => compare_bytes(x.as_bytes(), y.as_bytes()),
        },
        KeyOrder::Less => KeyOrder::Less,
        KeyOrder::Greater => KeyOrder::Greater,
    }
}

/// An attribute never sorts strictly before another with the same key.
pub proof fn lemma_key_lt_excludes_same_key<V>(a: Attribute<V>, b: Attribute<V>)
    requires
        key_lt(a, b),
    ensures
        !same_key(a, b),
        !key_lt(b, a),
{
    reveal(key_lt);
    lemma_bytes_lt_irreflexive(a.name.spec_bytes());
    if bytes_lt(b.name.spec_bytes(), a.name.spec_bytes()) && bytes_lt(
        a.name.spec_bytes(),
        b.name.spec_bytes(),
    ) {
        lemma_bytes_lt_transitive(a.name.spec_bytes(), b.name.spec_bytes(), a.name.spec_bytes());
    }
    match (namespace_bytes(a.namespace), namespace_bytes(b.namespace)) {
        (Some(x), Some(y)) => {
            lemma_bytes_lt_irreflexive(x);
            if bytes_lt(x, y) && bytes_lt(y, x) {
                lemma_bytes_lt_transitive(x, y, x);
            }
        },
        _ => {},
    }
}

/// The key order is transitive.
pub proof fn lemma_key_lt_transitive<V>(a: Attribute<V>, b: Attribute<V>, c: Attribute<V>)
    requires
        key_lt(a, b),
        key_lt(b, c),
    ensures
        key_lt(a, c),
{
    reveal(key_lt);
    let (na, nb, nc) = (a.name.spec_bytes(), b.name.spec_bytes(), c.name.spec_bytes());
    if bytes_lt(na, nb) && bytes_lt(nb, nc) {
        lemma_bytes_lt_transitive(na, nb, nc);
    } else if bytes_lt(na, nb) || bytes_lt(nb, nc) {
    } else {
        match (namespace_bytes(a.namespace), namespace_bytes(b.namespace), namespace_bytes(c.namespace)) {
            (Some(x), Some(y), Some(z)) => {
                lemma_bytes_lt_transitive(x, y, z);
            },
            _ => {},
        }
    }
}

/// The entries of `s` are in strictly increasing key order, so no key occurs twice.
pub open spec fn sorted_by_key<V>(s: Seq<Attribute<V>>) -> bool {
    forall|i: int, j: int| 0 <= i < j < s.len() ==> key_lt(#[trigger] s[i], #[trigger] s[j])
}

/// No entry after position `j` of `s` shares the key of `s[j]`.
pub open spec fn is_last_of_key<V>(s: Seq<Attribute<V>>, j: int) -> bool {
    forall|k: int| j < k < s.len() ==> !same_key(#[trigger] s[k], s[j])
}

/// `e` occurs in `inp` at a position that no later entry of the same key follows.
pub open spec fn occurs_last_of_key<V>(inp: Seq<Attribute<V>>, e: Attribute<V>) -> bool {
    exists|j: int| 0 <= j < inp.len() && inp[j] == e && #[trigger] is_last_of_key(inp, j)
}

/// Some entry of `out` carries the key of `e`.
pub open spec fn holds_key<V>(out: Seq<Attribute<V>>, e: Attribute<V>) -> bool {
    exists|i: int| 0 <= i < out.len() && #[trigger] same_key(out[i], e)
}

/// `out` is the normal form of `inp`: sorted by key, holding exactly the keys of `inp`, and for
/// each key the last entry of `inp` that carries it.
pub open spec fn is_normal_form<V>(out: Seq<Attribute<V>>, inp: Seq<Attribute<V>>) -> bool {
    &&& sorted_by_key(out)
    &&& forall|i: int| 0 <= i < out.len() ==> #[trigger] occurs_last_of_key(inp, out[i])
    &&& forall|j: int| 0 <= j < inp.len() ==> #[trigger] holds_key(out, inp[j])
}

/// Prepending an entry whose key the normal form already holds leaves the normal form unchanged,
/// since the held entry comes later.
proof fn lemma_prepend_known_key<V>(out: Seq<Attribute<V>>, suffix: Seq<Attribute<V>>, x: Attribute<V>, i: int)
    requires
        is_normal_form(out, suffix),
        0 <= i < out.len(),
        same_key(out[i], x),
    ensures
        is_normal_form(out, seq![x] + suffix),
{
    let s2 = seq![x] + suffix;
    assert forall|k: int| 0 <= k < out.len() implies #[trigger] occurs_last_of_key(s2, out[k]) by {
        assert(occurs_last_of_key(suffix, out[k]));
        let j = choose|j: int| 0 <= j < suffix.len() && suffix[j] == out[k] && #[trigger] is_last_of_key(suffix, j);
        assert(s2[j + 1] == suffix[j]);
        assert forall|m: int| j + 1 < m < s2.len() implies !same_key(#[trigger] s2[m], s2[j + 1]) by {
            assert(s2[m] == suffix[m - 1]);
        }
        assert(is_last_of_key(s2, j + 1));
    }
    assert forall|j: int| 0 <= j < s2.len() implies #[trigger] holds_key(out, s2[j]) by {
        if j == 0 {
            assert(same_key(out[i], s2[0]));
        } else {
            assert(s2[j] == suffix[j - 1]);
            assert(holds_key(out, suffix[j - 1]));
        }
    }
}

/// Inserting an entry with a new key at its sorted position extends the normal form by it.
proof fn lemma_prepend_new_key<V>(before: Seq<Attribute<V>>, suffix: Seq<Attribute<V>>, x: Attribute<V>, i: int)
    requires
        is_normal_form(before, suffix),
        0 <= i <= before.len(),
        forall|k: int| 0 <= k < i ==> key_lt(#[trigger] before[k], x),
        forall|k: int| i <= k < before.len() ==> key_lt(x, #[trigger] before[k]),
    ensures
        is_normal_form(before.insert(i, x), seq![x] + suffix),
{
    let s2 = seq![x] + suffix;
    let after = before.insert(i, x);
    assert forall|k: int| 0 <= k < before.len() implies !same_key(#[trigger] before[k], x) by {
        if k < i {
            lemma_key_lt_excludes_same_key(before[k], x);
        } else {
            lemma_key_lt_excludes_same_key(x, before[k]);
        }
    }
    assert forall|a: int, b: int| 0 <= a < b < after.len() implies key_lt(#[trigger] after[a], #[trigger] after[b]) by {
        if b < i {
            assert(after[a] == before[a] && after[b] == before[b]);
        } else if b == i {
            assert(after[a] == before[a]);
        } else if a < i {
            assert(after[a] == before[a] && after[b] == before[b - 1]);
            lemma_key_lt_transitive(after[a], x, after[b]);
        } else if a == i {
            assert(after[b] == before[b - 1]);
        } else {
            assert(after[a] == before[a - 1] && after[b] == before[b - 1]);
        }
    }
    assert(sorted_by_key(after));
    assert forall|k: int| 0 <= k < after.len() implies #[trigger] occurs_last_of_key(s2, after[k]) by {
        if k == i {
            assert(s2[0] == after[k]);
            assert forall|m: int| 0 < m < s2.len() implies !same_key(#[trigger] s2[m], s2[0]) by {
                assert(s2[m] == suffix[m - 1]);
                assert(holds_key(before, suffix[m - 1]));
                let q = choose|q: int| 0 <= q < before.len() && #[trigger] same_key(before[q], suffix[m - 1]);
                assert(!same_key(before[q], x));
            }
            assert(is_last_of_key(s2, 0));
        } else {
            let k0 = if k < i { k } else { k - 1 };
            assert(after[k] == before[k0]);
            assert(occurs_last_of_key(suffix, before[k0]));
            let j = choose|j: int| 0 <= j < suffix.len() && suffix[j] == before[k0] && #[trigger] is_last_of_key(suffix, j);
            assert(s2[j + 1] == suffix[j]);
            assert forall|m: int| j + 1 < m < s2.len() implies !same_key(#[trigger] s2[m], s2[j + 1]) by {
                assert(s2[m] == suffix[m - 1]);
            }
            assert(is_last_of_key(s2, j + 1));
        }
    }
    assert forall|j: int| 0 <= j < s2.len() implies #[trigger] holds_key(after, s2[j]) by {
        if j == 0 {
            assert(same_key(after[i], s2[0]));
        } else {
            assert(s2[j] == suffix[j - 1]);
            assert(holds_key(before, suffix[j - 1]));
            let q = choose|q: int| 0 <= q < before.len() && #[trigger] same_key(before[q], suffix[j - 1]);
            if q < i {
                assert(after[q] == before[q]);
                assert(same_key(after[q], s2[j]));
            } else {
                assert(after[q + 1] == before[q]);
                assert(same_key(after[q + 1], s2[j]));
            }
        }
    }
}

/// Adds `x` in front of the entries `out` already normalizes, keeping an existing entry of the
/// same key, since that one came later.
fn insert_before_later<V>(out: &mut Vec<Attribute<V>>, x: Attribute<V>, Ghost(suffix): Ghost<Seq<Attribute<V>>>)
    requires
        is_normal_form(old(out)@, suffix),
    ensures
        is_normal_form(final(out)@, seq![x] + suffix),
{
    let mut i: usize = 0;
    while i < out.len()
        invariant
            0 <= i <= out@.len(),
            out@ == old(out)@,
            is_normal_form(out@, suffix),
            forall|k: int| 0 <= k < i ==> key_lt(#[trigger] out@[k], x),
        ensures
            0 <= i <= out@.len(),
            out@ == old(out)@,
            is_normal_form(out@, suffix),
            forall|k: int| 0 <= k < i ==> key_lt(#[trigger] out@[k], x),
            i < out@.len() ==> key_lt(x, out@[i as int]),
        decreases out@.len() - i,
    {
        match compare_keys(&out[i], &x) {
            KeyOrder::Less => {
                i = i + 1;
            },
            KeyOrder::Equal => {
                proof {
                    lemma_prepend_known_key(out@, suffix, x, i as int);
                }
                return;
            },
            KeyOrder::Greater => {
                break;
            },
        }
    }
    proof {
        let before = out@;
        assert forall|k: int| i <= k < before.len() implies key_lt(x, #[trigger] before[k]) by {
            if k > i {
                lemma_key_lt_transitive(x, before[i as int], before[k]);
            }
        }
        lemma_prepend_new_key(before, suffix, x, i as int);
    }
    out.insert(i, x);
}

/// Sorts an attribute list by name, then namespace, keeping the last entry for each name and
/// namespace.
///
/// A renderer that diffs spread attribute lists with a sorted merge-join needs both properties:
/// an unsorted or duplicated list makes the next render emit removals for attributes that are
/// still present.
pub fn normalize_attributes<V>(attributes: &mut Vec<Attribute<V>>)
    ensures
        is_normal_form(final(attributes)@, old(attributes)@),
{
    let ghost input = attributes@;
    let mut out: Vec<Attribute<V>> = Vec::new();
    while attributes.len() > 0
        invariant
            attributes@ =~= input.take(attributes@.len() as int),
            attributes@.len() <= input.len(),
            is_normal_form(out@, input.skip(attributes@.len() as int)),
        decreases attributes@.len(),
    {
        let ghost n = attributes@.len() as int;
        let x = attributes.pop().unwrap();
        proof {
            assert(input.skip(n - 1) =~= seq![x] + input.skip(n));
        }
        insert_before_later(&mut out, x, Ghost(input.skip(n)));
    }
    proof {
        assert(input.skip(0) =~= input);
    }
    *attributes = out;
}


/// The view of a normal form is the normal form of the views: normalizing never looks at values.
pub proof fn lemma_normal_form_views<V: View>(out: Seq<Attribute<V>>, inp: Seq<Attribute<V>>)
    requires
        is_normal_form(out, inp),
    ensures
        is_normal_form(attribute_views(out), attribute_views(inp)),
{
    reveal(key_lt);
    let vo = attribute_views(out);
    let vi = attribute_views(inp);
    assert forall|a: int, b: int| 0 <= a < b < vo.len() implies key_lt(#[trigger] vo[a], #[trigger] vo[b]) by {
        assert(key_lt(out[a], out[b]));
    }
    assert forall|k: int| 0 <= k < vo.len() implies #[trigger] occurs_last_of_key(vi, vo[k]) by {
        assert(occurs_last_of_key(inp, out[k]));
        let j = choose|j: int| 0 <= j < inp.len() && inp[j] == out[k] && #[trigger] is_last_of_key(inp, j);
        assert forall|m: int| j < m < vi.len() implies !same_key(#[trigger] vi[m], vi[j]) by {
            assert(!same_key(inp[m], inp[j]));
        }
        assert(vi[j] == vo[k] && is_last_of_key(vi, j));
    }
    assert forall|j: int| 0 <= j < vi.len() implies #[trigger] holds_key(vo, vi[j]) by {
        assert(holds_key(out, inp[j]));
        let i = choose|i: int| 0 <= i < out.len() && #[trigger] same_key(out[i], inp[j]);
        assert(same_key(vo[i], vi[j]));
    }
}

/// The contents of each attribute group.
pub open spec fn group_contents<V>(groups: Seq<Vec<Attribute<V>>>) -> Seq<Seq<Attribute<V>>> {
    groups.map_values(|g: Vec<Attribute<V>>| g@)
}

/// The concatenation of attribute groups, in group order.
pub open spec fn concat_groups<V>(groups: Seq<Vec<Attribute<V>>>) -> Seq<Attribute<V>> {
    group_contents(groups).flatten()
}

/// Whether `a` is a `class` attribute, whose values a merge joins instead of replacing.
pub open spec fn is_class<V>(a: Attribute<V>) -> bool {
    a.name.spec_bytes() == "class".spec_bytes()
}

/// The values of the entries of `s` that share the key of `x`, in order.
pub open spec fn key_values<V>(s: Seq<Attribute<V>>, x: Attribute<V>) -> Seq<V>
    decreases s.len(),
{
    if s.len() == 0 {
        Seq::empty()
    } else if same_key(s.last(), x) {
        key_values(s.drop_last(), x).push(s.last().value)
    } else {
        key_values(s.drop_last(), x)
    }
}

/// Two class values, weakest first: two texts join with one space between them; otherwise the
/// later value wins.
pub open spec fn joined_class_value(earlier: AttributeValueView, later: AttributeValueView) -> AttributeValueView {
    match (earlier, later) {
        (AttributeValueView::Text(a), AttributeValueView::Text(b)) => AttributeValueView::Text(
            a + seq![' '] + b,
        ),
        _ => later,
    }
}

/// The class value a list of values merges to, weakest first.
pub open spec fn class_value(values: Seq<AttributeValueView>) -> AttributeValueView
    recommends
        values.len() > 0,
    decreases values.len(),
{
    if values.len() <= 1 {
        values[0]
    } else {
        joined_class_value(class_value(values.drop_last()), values.last())
    }
}

/// `s` with each `class` entry carrying the class value of every entry of its key up to and
/// including itself; other entries unchanged.
pub open spec fn with_joined_classes(s: Seq<Attribute<AttributeValueView>>) -> Seq<Attribute<AttributeValueView>> {
    Seq::new(
        s.len(),
        |j: int|
            if is_class(s[j]) {
                Attribute { value: class_value(key_values(s.take(j + 1), s[j])), ..s[j] }
            } else {
                s[j]
            },
    )
}

/// Entries that share a key have the same key values.
proof fn lemma_key_values_same_key<V>(s: Seq<Attribute<V>>, x: Attribute<V>, y: Attribute<V>)
    requires
        same_key(x, y),
    ensures
        key_values(s, x) == key_values(s, y),
    decreases s.len(),
{
    if s.len() > 0 {
        lemma_key_values_same_key(s.drop_last(), x, y);
    }
}

/// Entries of other keys between positions `lo` and `hi` add nothing to the key values of `x`.
proof fn lemma_key_values_skip<V>(s: Seq<Attribute<V>>, x: Attribute<V>, lo: int, hi: int)
    requires
        0 <= lo <= hi <= s.len(),
        forall|k: int| lo <= k < hi ==> !same_key(#[trigger] s[k], x),
    ensures
        key_values(s.take(hi), x) == key_values(s.take(lo), x),
    decreases hi - lo,
{
    if hi > lo {
        assert(s.take(hi).drop_last() =~= s.take(hi - 1));
        assert(s.take(hi).last() == s[hi - 1]);
        lemma_key_values_skip(s, x, lo, hi - 1);
    }
}

/// Whether a name is `class`.
fn is_class_name(name: &'static str) -> (r: bool)
    ensures
        r == (name.spec_bytes() == "class".spec_bytes()),
{
    match compare_bytes(name.as_bytes(), "class".as_bytes()) {
        KeyOrder::Equal => true,
        KeyOrder::Less => {
            proof {
                lemma_bytes_lt_irreflexive(name.spec_bytes());
            }
            false
        },
        KeyOrder::Greater => {
            proof {
                lemma_bytes_lt_irreflexive(name.spec_bytes());
            }
            false
        },
    }
}

/// Copies an attribute value.
fn copy_value(value: &AttributeValue) -> (r: AttributeValue)
    ensures
        r@ == value@,
{
    match value {
        AttributeValue::Text(text) => AttributeValue::Text(text.clone()),
        AttributeValue::Bool(flag) => AttributeValue::Bool(*flag),
        AttributeValue::Handle(handle) => AttributeValue::Handle(*handle),
    }
}

/// Joins two class values, weakest first.
fn join_class_values(earlier: &AttributeValue, later: &AttributeValue) -> (r: AttributeValue)
    ensures
        r@ == joined_class_value(earlier@, later@),
{
    match earlier {
        AttributeValue::Text(a) => match later {
            AttributeValue::Text(b) => {
                let mut text = a.clone();
                let separator = " ";
                proof {
                    reveal_strlit(" ");
                }
                text.append(separator);
                text.append(b.as_str());
                proof {
                    assert(text@ =~= a@ + seq![' '] + b@);
                }
                AttributeValue::Text(text)
            },
            _ => copy_value(later),
        },
        _ => copy_value(later),
    }
}

/// The position of the last entry of `entries` that shares the key of `x`, if any.
fn last_of_key(entries: &Vec<Attribute<AttributeValue>>, x: &Attribute<AttributeValue>) -> (r: Option<usize>)
    ensures
        r matches Some(j) ==> j < entries@.len() && same_key(entries@[j as int], *x) && forall|k: int|
            j < k < entries@.len() ==> !same_key(#[trigger] entries@[k], *x),
        r is None ==> forall|k: int| 0 <= k < entries@.len() ==> !same_key(#[trigger] entries@[k], *x),
{
    let mut j: usize = entries.len();
    while j > 0
        invariant
            j <= entries@.len(),
            forall|k: int| j <= k < entries@.len() ==> !same_key(#[trigger] entries@[k], *x),
        decreases j,
    {
        match compare_keys(&entries[j - 1], x) {
            KeyOrder::Equal => {
                return Some(j - 1);
            },
            KeyOrder::Less => {
                proof {
                    lemma_key_lt_excludes_same_key(entries@[j - 1], *x);
                }
            },
            KeyOrder::Greater => {
                proof {
                    lemma_key_lt_excludes_same_key(*x, entries@[j - 1]);
                }
            },
        }
        j = j - 1;
    }
    None
}

/// Rewrites each `class` entry to carry the joined class value of its key so far.
#[verifier::rlimit(30)]
fn join_classes(flat: &Vec<Attribute<AttributeValue>>) -> (r: Vec<Attribute<AttributeValue>>)
    ensures
        attribute_views(r@) == with_joined_classes(attribute_views(flat@)),
{
    let ghost s = attribute_views(flat@);
    let mut out: Vec<Attribute<AttributeValue>> = Vec::new();
    let mut i: usize = 0;
    while i < flat.len()
        invariant
            i <= flat@.len(),
            s == attribute_views(flat@),
            attribute_views(out@) == with_joined_classes(s.take(i as int)),
        decreases flat@.len() - i,
    {
        let x = &flat[i];
        let ghost t = s.take(i + 1);
        proof {
            assert(attribute_views(out@).len() == out@.len());
            assert(with_joined_classes(s.take(i as int)).len() == i);
            assert(out@.len() == i);
            assert(s.len() == flat@.len());
            assert(t.drop_last() =~= s.take(i as int));
            assert(t.last() == x@);
            assert(same_key(x@, x@));
            assert(key_values(t, x@) == key_values(s.take(i as int), x@).push(x@.value));
        }
        let ghost expected = if is_class(x@) {
            class_value(key_values(t, x@))
        } else {
            x@.value
        };
        let value = if is_class_name(x.name) {
            match last_of_key(&out, x) {
                Some(j) => {
                    proof {
                        let w = attribute_views(out@);
                        assert forall|k: int| j < k < i implies !same_key(#[trigger] s[k], x@) by {
                            assert(w[k].name == s[k].name && w[k].namespace == s[k].namespace);
                            assert(!same_key(out@[k], *x));
                        }
                        lemma_key_values_skip(s, x@, j + 1, i as int);
                        assert(w[j as int].name == s[j as int].name);
                        assert(w[j as int].namespace == s[j as int].namespace);
                        assert(same_key(s[j as int], x@));
                        lemma_key_values_same_key(s.take(j + 1), s[j as int], x@);
                        assert(s.take(j + 1).drop_last() =~= s.take(j as int));
                        assert(s.take(j + 1).last() == s[j as int]);
                        assert(key_values(s.take(j + 1), s[j as int]).len() > 0);
                        assert(is_class(s[j as int]));
                        assert(s.take(i as int).take(j + 1) =~= s.take(j + 1));
                        assert(w[j as int].value == class_value(key_values(s.take(j + 1), s[j as int])));
                        let vals = key_values(s.take(j + 1), s[j as int]);
                        assert(key_values(t, x@) == vals.push(x@.value));
                        assert(vals.push(x@.value).drop_last() =~= vals);
                        assert(expected == joined_class_value(class_value(vals), x@.value));
                    }
                    let joined = join_class_values(&out[j].value, &x.value);
                    proof {
                        assert(joined@ == expected);
                    }
                    joined
                },
                None => {
                    proof {
                        let w = attribute_views(out@);
                        assert forall|k: int| 0 <= k < i implies !same_key(#[trigger] s[k], x@) by {
                            assert(w[k].name == s[k].name && w[k].namespace == s[k].namespace);
                            assert(!same_key(out@[k], *x));
                        }
                        lemma_key_values_skip(s, x@, 0, i as int);
                        assert(s.take(0) =~= Seq::<Attribute<AttributeValueView>>::empty());
                        assert(key_values(t, x@) =~= seq![x@.value]);
                        assert(expected == x@.value);
                    }
                    copy_value(&x.value)
                },
            }
        } else {
            copy_value(&x.value)
        };
        proof {
            assert(value@ == expected);
        }
        let ghost before = attribute_views(out@);
        out.push(Attribute::new(x.name, value, x.namespace, x.volatile));
        proof {
            assert(t.len() == i + 1);
            assert(t.take(i + 1) =~= t);
            assert(t[i as int] == x@);
            assert(out@[i as int] == Attribute::<AttributeValue> { name: x.name, value, namespace: x.namespace, volatile: x.volatile });
            assert(attribute_views(out@)[i as int] == with_joined_classes(t)[i as int]);
            assert(attribute_views(out@) =~= before.push(attribute_views(out@).last()));
            assert forall|j: int| 0 <= j < i + 1 implies #[trigger] with_joined_classes(t)[j]
                == attribute_views(out@)[j] by {
                if j < i {
                    assert(t.take(j + 1) =~= s.take(i as int).take(j + 1));
                }
            }
            assert(with_joined_classes(t) =~= attribute_views(out@));
        }
        i = i + 1;
    }
    proof {
        assert(s.take(i as int) =~= s);
    }
    out
}

/// Merges ordered attribute groups into one list a widget can spread.
///
/// Groups resolve last-wins: where two groups set the same name and namespace, the later group's
/// entry survives. `class` is the exception: its values are joined weakest-first with one space
/// between them, so a widget's own classes survive a caller's. The result is sorted by name and
/// namespace and holds one entry per key.
pub fn merge_attributes(groups: Vec<Vec<Attribute<AttributeValue>>>) -> (merged: Vec<Attribute<AttributeValue>>)
    ensures
        is_normal_form(
            attribute_views(merged@),
            with_joined_classes(attribute_views(concat_groups(groups@))),
        ),
{
    let ghost all = group_contents(groups@);
    let mut rest = groups;
    let mut flat: Vec<Attribute<AttributeValue>> = Vec::new();
    let ghost mut done: int = 0;
    while rest.len() > 0
        invariant
            0 <= done <= all.len(),
            group_contents(rest@) =~= all.skip(done),
            flat@ =~= all.take(done).flatten_alt(),
        decreases rest@.len(),
    {
        let ghost before = rest@;
        let mut group = rest.remove(0);
        proof {
            assert(group_contents(before)[0] == group@);
            assert(group_contents(before).len() == before.len());
            assert(all.skip(done).len() == before.len());
            assert(done < all.len());
            assert(all.skip(done)[0] == all[done]);
            assert(all[done] == group@);
            assert(all.take(done + 1).drop_last() =~= all.take(done));
            assert forall|k: int| 0 <= k < rest@.len() implies #[trigger] group_contents(rest@)[k]
                == all.skip(done + 1)[k] by {
                assert(rest@[k] == before[k + 1]);
                assert(group_contents(before)[k + 1] == all.skip(done)[k + 1]);
            }
            assert(group_contents(rest@) =~= all.skip(done + 1));
        }
        flat.append(&mut group);
        proof {
            done = done + 1;
        }
    }
    proof {
        assert(all.take(done) =~= all);
        all.lemma_flatten_and_flatten_alt_are_equivalent();
    }
    let mut merged = join_classes(&flat);
    let ghost joined = merged@;
    normalize_attributes(&mut merged);
    proof {
        lemma_normal_form_views(merged@, joined);
    }
    merged
}

/// A normal form holds at most one entry per name and namespace.
pub proof fn law_one_entry_per_key<V>(out: Seq<Attribute<V>>, inp: Seq<Attribute<V>>, i: int, j: int)
    requires
        is_normal_form(out, inp),
        0 <= i < j < out.len(),
    ensures
        !same_key(out[i], out[j]),
{
    lemma_key_lt_excludes_same_key(out[i], out[j]);
}

/// Joining class values leaves every entry's key, and every other entry, unchanged.
proof fn lemma_joined_classes_keep_keys(s: Seq<Attribute<AttributeValueView>>, k: int)
    requires
        0 <= k < s.len(),
    ensures
        with_joined_classes(s).len() == s.len(),
        same_key(with_joined_classes(s)[k], s[k]),
        with_joined_classes(s)[k].name == s[k].name,
        !is_class(s[k]) ==> with_joined_classes(s)[k] == s[k],
{
}

/// In a merge, the last group wins every key other than `class` that it sets: the entry the last
/// group gives such a key (its last one, if it repeats the key) is the entry the merged list holds.
pub proof fn law_last_group_wins(
    out: Seq<Attribute<AttributeValueView>>,
    earlier: Seq<Attribute<AttributeValueView>>,
    last: Seq<Attribute<AttributeValueView>>,
    j: int,
)
    requires
        is_normal_form(out, with_joined_classes(earlier + last)),
        0 <= j < last.len(),
        is_last_of_key(last, j),
        !is_class(last[j]),
    ensures
        exists|i: int| 0 <= i < out.len() && out[i] == last[j],
{
    let flat = earlier + last;
    let joined = with_joined_classes(flat);
    let idx = earlier.len() + j;
    assert(flat[idx] == last[j]);
    lemma_joined_classes_keep_keys(flat, idx);
    assert forall|m: int| idx < m < joined.len() implies !same_key(#[trigger] joined[m], joined[idx]) by {
        lemma_joined_classes_keep_keys(flat, m);
        assert(flat[m] == last[m - earlier.len()]);
        assert(!same_key(last[m - earlier.len()], last[j]));
    }
    assert(holds_key(out, joined[idx]));
    let i = choose|i: int| 0 <= i < out.len() && #[trigger] same_key(out[i], joined[idx]);
    assert(occurs_last_of_key(joined, out[i]));
    let k = choose|k: int| 0 <= k < joined.len() && joined[k] == out[i] && #[trigger] is_last_of_key(joined, k);
    if k < idx {
        assert(!same_key(joined[idx], joined[k]));
    } else if k > idx {
        assert(!same_key(joined[k], joined[idx]));
    }
    assert(out[i] == last[j]);
}

/// Only attributes named `class` join their values in a merge: `is_class` holds exactly of the
/// attributes whose name is `class`, whatever their namespace and value.
pub proof fn law_only_class_joins<V>(a: Attribute<V>)
    ensures
        is_class(a) <==> a.name@ == "class"@,
{
    if is_class(a) {
        lemma_same_bytes_same_name(a.name, "class");
    }
}

/// In a merge, the last group wins every key it sets whose name is not `class`: that entry of the
/// last group (its last one, if it repeats the key) is the entry the merged list holds, unchanged.
pub proof fn law_last_group_wins_unless_named_class(
    out: Seq<Attribute<AttributeValueView>>,
    earlier: Seq<Attribute<AttributeValueView>>,
    last: Seq<Attribute<AttributeValueView>>,
    j: int,
)
    requires
        is_normal_form(out, with_joined_classes(earlier + last)),
        0 <= j < last.len(),
        is_last_of_key(last, j),
        last[j].name@ != "class"@,
    ensures
        exists|i: int| 0 <= i < out.len() && out[i] == last[j],
{
    law_only_class_joins(last[j]);
    law_last_group_wins(out, earlier, last, j);
}

/// In a merge, the `class` values of one name and namespace are joined weakest-first: the merged
/// list holds that key with the class value of all its values, in order.
pub proof fn law_class_values_join(out: Seq<Attribute<AttributeValueView>>, flat: Seq<Attribute<AttributeValueView>>, j: int)
    requires
        is_normal_form(out, with_joined_classes(flat)),
        0 <= j < flat.len(),
        is_class(flat[j]),
    ensures
        exists|i: int|
            0 <= i < out.len() && same_key(out[i], flat[j]) && out[i].value == class_value(
                key_values(flat, flat[j]),
            ),
{
    let joined = with_joined_classes(flat);
    lemma_joined_classes_keep_keys(flat, j);
    assert(holds_key(out, joined[j]));
    let i = choose|i: int| 0 <= i < out.len() && #[trigger] same_key(out[i], joined[j]);
    assert(occurs_last_of_key(joined, out[i]));
    let k = choose|k: int| 0 <= k < joined.len() && joined[k] == out[i] && #[trigger] is_last_of_key(joined, k);
    lemma_joined_classes_keep_keys(flat, k);
    assert(same_key(flat[k], flat[j]));
    assert(is_class(flat[k]));
    assert forall|m: int| k + 1 <= m < flat.len() implies !same_key(#[trigger] flat[m], flat[j]) by {
        lemma_joined_classes_keep_keys(flat, m);
        assert(!same_key(joined[m], joined[k]));
    }
    lemma_key_values_skip(flat, flat[j], k + 1, flat.len() as int);
    assert(flat.take(flat.len() as int) =~= flat);
    lemma_key_values_same_key(flat.take(k + 1), flat[k], flat[j]);
    assert(out[i].value == class_value(key_values(flat.take(k + 1), flat[k])));
}


/// The key values of a concatenation are those of its parts, in order.
pub proof fn lemma_key_values_concat<V>(a: Seq<Attribute<V>>, b: Seq<Attribute<V>>, x: Attribute<V>)
    ensures
        key_values(a + b, x) == key_values(a, x) + key_values(b, x),
    decreases b.len(),
{
    if b.len() == 0 {
        assert(a + b =~= a);
        assert(key_values(a, x) + key_values(b, x) =~= key_values(a, x));
    } else {
        let init = b.drop_last();
        lemma_key_values_concat(a, init, x);
        assert((a + b).drop_last() =~= a + init);
        assert((a + b).last() == b.last());
        if same_key(b.last(), x) {
            assert(key_values(a, x) + key_values(init, x).push(b.last().value)
                =~= (key_values(a, x) + key_values(init, x)).push(b.last().value));
        }
    }
}

/// Two `class` texts of one key merge into one entry whose text is the earlier, a space, and the
/// later: a widget's own classes come first and survive a caller's.
pub proof fn law_two_class_texts_join(
    out: Seq<Attribute<AttributeValueView>>,
    flat: Seq<Attribute<AttributeValueView>>,
    j: int,
    earlier: Seq<char>,
    later: Seq<char>,
)
    requires
        is_normal_form(out, with_joined_classes(flat)),
        0 <= j < flat.len(),
        is_class(flat[j]),
        key_values(flat, flat[j]) == seq![AttributeValueView::Text(earlier), AttributeValueView::Text(later)],
    ensures
        exists|i: int| 0 <= i < out.len() && same_key(out[i], flat[j]),
        forall|i: int|
            0 <= i < out.len() && same_key(#[trigger] out[i], flat[j]) ==> out[i].value
                == AttributeValueView::Text(earlier + seq![' '] + later),
{
    law_class_values_join(out, flat, j);
    let i0 = choose|i: int|
        0 <= i < out.len() && same_key(out[i], flat[j]) && out[i].value == class_value(
            key_values(flat, flat[j]),
        );
    let vals = seq![AttributeValueView::Text(earlier), AttributeValueView::Text(later)];
    assert(vals.drop_last() =~= seq![AttributeValueView::Text(earlier)]);
    assert(vals.len() == 2);
    assert(vals.last() == AttributeValueView::Text(later));
    assert(class_value(seq![AttributeValueView::Text(earlier)]) == AttributeValueView::Text(earlier));
    assert(class_value(vals) == joined_class_value(class_value(vals.drop_last()), vals.last()));
    assert(class_value(vals) == AttributeValueView::Text(earlier + seq![' '] + later));
    assert forall|i: int| 0 <= i < out.len() && same_key(#[trigger] out[i], flat[j]) implies out[i].value
        == AttributeValueView::Text(earlier + seq![' '] + later) by {
        if i != i0 {
            assert(same_key(out[i], out[i0]));
            if i < i0 {
                law_one_entry_per_key(out, with_joined_classes(flat), i, i0);
            } else {
                law_one_entry_per_key(out, with_joined_classes(flat), i0, i);
            }
        }
    }
}

/// An entry of one normal form of `inp` is an entry of every other normal form of `inp`.
proof fn lemma_entry_of_other_normal_form<V>(a: Seq<Attribute<V>>, b: Seq<Attribute<V>>, inp: Seq<Attribute<V>>, i: int)
    requires
        is_normal_form(a, inp),
        is_normal_form(b, inp),
        0 <= i < a.len(),
    ensures
        exists|k: int| 0 <= k < b.len() && b[k] == a[i],
{
    assert(occurs_last_of_key(inp, a[i]));
    let j = choose|j: int| 0 <= j < inp.len() && inp[j] == a[i] && #[trigger] is_last_of_key(inp, j);
    assert(holds_key(b, inp[j]));
    let k = choose|k: int| 0 <= k < b.len() && #[trigger] same_key(b[k], inp[j]);
    assert(occurs_last_of_key(inp, b[k]));
    let j2 = choose|j2: int| 0 <= j2 < inp.len() && inp[j2] == b[k] && #[trigger] is_last_of_key(inp, j2);
    if j < j2 {
        assert(!same_key(inp[j2], inp[j]));
    } else if j2 < j {
        assert(!same_key(inp[j], inp[j2]));
    }
    assert(b[k] == a[i]);
}

/// Strictly sorted entries never repeat.
proof fn lemma_sorted_entries_differ<V>(s: Seq<Attribute<V>>, x: int, y: int)
    requires
        sorted_by_key(s),
        0 <= x < y < s.len(),
    ensures
        s[x] != s[y],
{
    lemma_key_lt_excludes_same_key(s[x], s[y]);
}

/// Two normal forms of one list agree on their first `n` entries.
proof fn lemma_normal_forms_agree_below<V>(a: Seq<Attribute<V>>, b: Seq<Attribute<V>>, inp: Seq<Attribute<V>>, n: int)
    requires
        is_normal_form(a, inp),
        is_normal_form(b, inp),
        0 <= n <= a.len(),
    ensures
        n <= b.len(),
        forall|i: int| 0 <= i < n ==> a[i] == b[i],
    decreases n,
{
    if n > 0 {
        lemma_normal_forms_agree_below(a, b, inp, n - 1);
        let i = n - 1;
        lemma_entry_of_other_normal_form(a, b, inp, i);
        let k = choose|k: int| 0 <= k < b.len() && b[k] == a[i];
        if k < i {
            assert(a[k] == b[k]);
            lemma_sorted_entries_differ(a, k, i);
        } else if k > i {
            lemma_entry_of_other_normal_form(b, a, inp, i);
            let k2 = choose|k2: int| 0 <= k2 < a.len() && a[k2] == b[i];
            if k2 < i {
                assert(a[k2] == b[k2]);
                lemma_sorted_entries_differ(b, k2, i);
            } else if k2 == i {
                lemma_sorted_entries_differ(b, i, k);
            } else {
                assert(key_lt(a[i], a[k2]));
                assert(key_lt(b[i], b[k]));
                lemma_key_lt_transitive(a[i], a[k2], a[i]);
                lemma_key_lt_excludes_same_key(a[i], a[i]);
            }
        }
    }
}

/// The normal form of a list is unique: the contract of [`normalize_attributes`] and
/// [`merge_attributes`] determines their result entry for entry.
pub proof fn law_normal_form_is_unique<V>(a: Seq<Attribute<V>>, b: Seq<Attribute<V>>, inp: Seq<Attribute<V>>)
    requires
        is_normal_form(a, inp),
        is_normal_form(b, inp),
    ensures
        a == b,
{
    lemma_normal_forms_agree_below(a, b, inp, a.len() as int);
    lemma_normal_forms_agree_below(b, a, inp, b.len() as int);
    assert(a =~= b);
}

/// Normalizing a normalized list changes nothing.
pub proof fn law_normalizing_is_idempotent<V>(out: Seq<Attribute<V>>, inp: Seq<Attribute<V>>, again: Seq<Attribute<V>>)
    requires
        is_normal_form(out, inp),
        is_normal_form(again, out),
    ensures
        again == out,
{
    assert forall|i: int| 0 <= i < out.len() implies #[trigger] occurs_last_of_key(out, out[i]) by {
        assert forall|k: int| i < k < out.len() implies !same_key(#[trigger] out[k], out[i]) by {
            lemma_key_lt_excludes_same_key(out[i], out[k]);
        }
        assert(is_last_of_key(out, i));
    }
    assert forall|j: int| 0 <= j < out.len() implies #[trigger] holds_key(out, out[j]) by {
        assert(same_key(out[j], out[j]));
    }
    law_normal_form_is_unique(again, out, out);
}

/// The entries of `s` named `name`, in order, whatever their namespace.
#[verifier::opaque]
pub open spec fn entries_named<V>(s: Seq<Attribute<V>>, name: Seq<char>) -> Seq<Attribute<V>>
    decreases s.len(),
{
    if s.len() == 0 {
        Seq::empty()
    } else if s.last().name@ == name {
        entries_named(s.drop_last(), name).push(s.last())
    } else {
        entries_named(s.drop_last(), name)
    }
}

/// Appending an entry adds it to the entries of its own name only.
pub proof fn lemma_entries_named_push<V>(s: Seq<Attribute<V>>, x: Attribute<V>, name: Seq<char>)
    ensures
        entries_named(s.push(x), name) == (if x.name@ == name {
            entries_named(s, name).push(x)
        } else {
            entries_named(s, name)
        }),
{
    reveal(entries_named);
    assert(s.push(x).drop_last() =~= s);
}

/// The entries of a concatenation are those of its parts, in order.
pub proof fn lemma_entries_named_concat<V>(a: Seq<Attribute<V>>, b: Seq<Attribute<V>>, name: Seq<char>)
    ensures
        entries_named(a + b, name) == entries_named(a, name) + entries_named(b, name),
    decreases b.len(),
{
    if b.len() == 0 {
        reveal(entries_named);
        assert(a + b =~= a);
        assert(entries_named(a, name) + entries_named(b, name) =~= entries_named(a, name));
    } else {
        let init = b.drop_last();
        lemma_entries_named_concat(a, init, name);
        assert(a + b =~= (a + init).push(b.last()));
        assert(b =~= init.push(b.last()));
        lemma_entries_named_push(a + init, b.last(), name);
        lemma_entries_named_push(init, b.last(), name);
        if b.last().name@ == name {
            assert(entries_named(a, name) + entries_named(init, name).push(b.last())
                =~= (entries_named(a, name) + entries_named(init, name)).push(b.last()));
        }
    }
}

/// No entry is named `name` exactly when there are no entries of that name.
proof fn lemma_entries_named_none<V>(s: Seq<Attribute<V>>, name: Seq<char>)
    ensures
        (entries_named(s, name).len() == 0) <==> (forall|k: int| 0 <= k < s.len() ==> #[trigger] s[k].name@ != name),
    decreases s.len(),
{
    reveal(entries_named);
    if s.len() > 0 {
        lemma_entries_named_none(s.drop_last(), name);
        if entries_named(s, name).len() == 0 {
            assert forall|k: int| 0 <= k < s.len() implies #[trigger] s[k].name@ != name by {
                if k < s.len() - 1 {
                    assert(s[k] == s.drop_last()[k]);
                }
            }
        } else {
            if forall|k: int| 0 <= k < s.len() ==> #[trigger] s[k].name@ != name {
                assert(s.last().name@ != name);
                assert forall|k: int| 0 <= k < s.drop_last().len() implies #[trigger] s.drop_last()[k].name@ != name by {
                    assert(s.drop_last()[k] == s[k]);
                }
            }
        }
    }
}

/// A single entry named `name` at position `j` is all the entries of that name.
proof fn lemma_entries_named_one<V>(s: Seq<Attribute<V>>, name: Seq<char>, j: int)
    requires
        0 <= j < s.len(),
        s[j].name@ == name,
        forall|k: int| 0 <= k < s.len() && k != j ==> #[trigger] s[k].name@ != name,
    ensures
        entries_named(s, name) == seq![s[j]],
    decreases s.len(),
{
    reveal(entries_named);
    let init = s.drop_last();
    if j == s.len() - 1 {
        assert forall|k: int| 0 <= k < init.len() implies #[trigger] init[k].name@ != name by {
            assert(init[k] == s[k]);
        }
        lemma_entries_named_none(init, name);
        assert(entries_named(init, name) =~= Seq::<Attribute<V>>::empty());
        assert(entries_named(init, name).push(s[j]) =~= seq![s[j]]);
    } else {
        assert forall|k: int| 0 <= k < init.len() && k != j implies #[trigger] init[k].name@ != name by {
            assert(init[k] == s[k]);
        }
        assert(init[j] == s[j]);
        lemma_entries_named_one(init, name, j);
        assert(s.last() == s[s.len() - 1]);
    }
}

/// When there is one entry named `name`, it stands at a position no other entry of that name shares.
proof fn lemma_entries_named_one_index<V>(s: Seq<Attribute<V>>, name: Seq<char>) -> (j: int)
    requires
        entries_named(s, name).len() == 1,
    ensures
        0 <= j < s.len(),
        s[j] == entries_named(s, name)[0],
        s[j].name@ == name,
        forall|k: int| 0 <= k < s.len() && k != j ==> #[trigger] s[k].name@ != name,
    decreases s.len(),
{
    reveal(entries_named);
    let init = s.drop_last();
    if s.last().name@ == name {
        assert(entries_named(init, name).len() == 0);
        lemma_entries_named_none(init, name);
        assert forall|k: int| 0 <= k < s.len() && k != s.len() - 1 implies #[trigger] s[k].name@ != name by {
            assert(s[k] == init[k]);
        }
        s.len() - 1
    } else {
        let j = lemma_entries_named_one_index(init, name);
        assert forall|k: int| 0 <= k < s.len() && k != j implies #[trigger] s[k].name@ != name by {
            if k < s.len() - 1 {
                assert(s[k] == init[k]);
            }
        }
        j
    }
}

/// Names spelled by the same bytes are the same name.
proof fn lemma_same_bytes_same_name(a: &str, b: &str)
    requires
        a.spec_bytes() == b.spec_bytes(),
    ensures
        a@ == b@,
{
    vstd::utf8::encode_utf8_decode_utf8(a@);
    vstd::utf8::encode_utf8_decode_utf8(b@);
}

/// Normalizing keeps the entries of every name that the input holds at most once: the normal form
/// holds that entry, or none when the input holds none.
pub proof fn law_normal_form_keeps_single_names<V>(out: Seq<Attribute<V>>, inp: Seq<Attribute<V>>, name: Seq<char>)
    requires
        is_normal_form(out, inp),
        entries_named(inp, name).len() <= 1,
    ensures
        entries_named(out, name) == entries_named(inp, name),
{
    if entries_named(inp, name).len() == 0 {
        lemma_entries_named_none(inp, name);
        assert forall|i: int| 0 <= i < out.len() implies #[trigger] out[i].name@ != name by {
            assert(occurs_last_of_key(inp, out[i]));
            let k = choose|k: int| 0 <= k < inp.len() && inp[k] == out[i] && #[trigger] is_last_of_key(inp, k);
            assert(inp[k].name@ != name);
        }
        lemma_entries_named_none(out, name);
        assert(entries_named(out, name) =~= entries_named(inp, name));
    } else {
        let j = lemma_entries_named_one_index(inp, name);
        assert forall|m: int| j < m < inp.len() implies !same_key(#[trigger] inp[m], inp[j]) by {
            if same_key(inp[m], inp[j]) {
                lemma_same_bytes_same_name(inp[m].name, inp[j].name);
            }
        }
        assert(is_last_of_key(inp, j));
        assert(holds_key(out, inp[j]));
        let i = choose|i: int| 0 <= i < out.len() && #[trigger] same_key(out[i], inp[j]);
        lemma_same_bytes_same_name(out[i].name, inp[j].name);
        assert forall|i2: int| 0 <= i2 < out.len() && #[trigger] out[i2].name@ == name implies out[i2] == inp[j] by {
            assert(occurs_last_of_key(inp, out[i2]));
            let k = choose|k: int| 0 <= k < inp.len() && inp[k] == out[i2] && #[trigger] is_last_of_key(inp, k);
            assert(k == j);
        }
        assert forall|k: int| 0 <= k < out.len() && k != i implies #[trigger] out[k].name@ != name by {
            if out[k].name@ == name {
                if k < i {
                    lemma_sorted_entries_differ(out, k, i);
                } else {
                    lemma_sorted_entries_differ(out, i, k);
                }
            }
        }
        lemma_entries_named_one(out, name, i);
        assert(entries_named(inp, name) =~= seq![inp[j]]);
    }
}

} // verus!
