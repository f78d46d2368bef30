use vstd::prelude::*;

verus! {

/// The components of a path, each as its text, as `Path::components` yields
/// them.
pub uninterp spec fn components_of(p: Seq<char>) -> Seq<Seq<char>>;

/// Relies on `std::path::Path::components`: the root, `.`, `..` and normal
/// components of a path, each taken as its text, which depend on the path
/// alone.
#[verifier::external_body]
pub(crate) fn path_components(p: &str) -> (r: Vec<String>)
    ensures
        r@.len() == components_of(p@).len(),
        forall|i: int| 0 <= i < r@.len() ==> (#[trigger] r@[i])@ == components_of(p@)[i],
{
    std::path::Path::new(p).components().map(|c| c.as_os_str().to_string_lossy().into_owned()).collect()
}

/// Lexicographic comparison of byte strings: -1, 0 or 1.
pub open spec fn bytes_cmp(a: Seq<u8>, b: Seq<u8>) -> int
    decreases a.len(),
{
    if a.len() == 0 {
        if b.len() == 0 {
            0
        } else {
            -1
        }
    } else if b.len() == 0 {
        1
    } else if a[0] < b[0] {
        -1
    } else if a[0] > b[0] {
        1
    } else {
        bytes_cmp(a.drop_first(), b.drop_first())
    }
}

/// Lexicographic comparison of sequences of byte strings: -1, 0 or 1.
pub open spec fn parts_cmp(a: Seq<Seq<u8>>, b: Seq<Seq<u8>>) -> int
    decreases a.len(),
{
    if a.len() == 0 {
        if b.len() == 0 {
            0
        } else {
            -1
        }
    } else if b.len() == 0 {
        1
    } else if bytes_cmp(a[0], b[0]) != 0 {
        bytes_cmp(a[0], b[0])
    } else {
        parts_cmp(a.drop_first(), b.drop_first())
    }
}

/// The components of a path as UTF-8 byte strings.
pub open spec fn path_key(p: Seq<char>) -> Seq<Seq<u8>> {
    components_of(p).map_values(|c: Seq<char>| vstd::utf8::encode_utf8(c))
}

/// Order of two paths: component by component, each compared by its bytes.
pub open spec fn path_cmp(a: Seq<char>, b: Seq<char>) -> int {
    parts_cmp(path_key(a), path_key(b))
}

/// Swapping the arguments negates the comparison of byte strings.
pub proof fn lemma_bytes_cmp_antisym(a: Seq<u8>, b: Seq<u8>)
    ensures
        bytes_cmp(a, b) == -bytes_cmp(b, a),
    decreases a.len(),
{
    if a.len() > 0 && b.len() > 0 && a[0] == b[0] {
        lemma_bytes_cmp_antisym(a.drop_first(), b.drop_first());
    }
}

/// Byte strings that compare equal are equal.
pub proof fn lemma_bytes_cmp_zero(a: Seq<u8>, b: Seq<u8>)
    requires
        bytes_cmp(a, b) == 0,
    ensures
        a == b,
    decreases a.len(),
{
    if a.len() > 0 {
        lemma_bytes_cmp_zero(a.drop_first(), b.drop_first());
        assert(a =~= seq![a[0]] + a.drop_first());
        assert(b =~= seq![b[0]] + b.drop_first());
    } else {
        assert(b.len() == 0);
        assert(a =~= b);
    }
}

/// The order of byte strings is transitive.
pub proof fn lemma_bytes_cmp_trans(a: Seq<u8>, b: Seq<u8>, c: Seq<u8>)
    requires
        bytes_cmp(a, b) <= 0,
        bytes_cmp(b, c) <= 0,
    ensures
        bytes_cmp(a, c) <= 0,
    decreases a.len(),
{
    if a.len() > 0 && b.len() > 0 && c.len() > 0 && a[0] == b[0] && b[0] == c[0] {
        lemma_bytes_cmp_trans(a.drop_first(), b.drop_first(), c.drop_first());
    }
}

/// A chain of byte strings with one strict step is strict.
pub proof fn lemma_bytes_cmp_strict(a: Seq<u8>, b: Seq<u8>, c: Seq<u8>)
    requires
        bytes_cmp(a, b) <= 0,
        bytes_cmp(b, c) <= 0,
        bytes_cmp(a, b) < 0 || bytes_cmp(b, c) < 0,
    ensures
        bytes_cmp(a, c) < 0,
{
    lemma_bytes_cmp_trans(a, b, c);
    if bytes_cmp(a, c) == 0 {
        lemma_bytes_cmp_zero(a, c);
        lemma_bytes_cmp_antisym(a, b);
    }
}

/// Swapping the arguments negates the comparison of component lists.
pub proof fn lemma_parts_cmp_antisym(a: Seq<Seq<u8>>, b: Seq<Seq<u8>>)
    ensures
        parts_cmp(a, b) == -parts_cmp(b, a),
    decreases a.len(),
{
    if a.len() > 0 && b.len() > 0 {
        lemma_bytes_cmp_antisym(a[0], b[0]);
        lemma_parts_cmp_antisym(a.drop_first(), b.drop_first());
    }
}

/// The order of component lists is transitive.
pub proof fn lemma_parts_cmp_trans(a: Seq<Seq<u8>>, b: Seq<Seq<u8>>, c: Seq<Seq<u8>>)
    requires
        parts_cmp(a, b) <= 0,
        parts_cmp(b, c) <= 0,
    ensures
        parts_cmp(a, c) <= 0,
    decreases a.len(),
{
    if a.len() > 0 && b.len() > 0 && c.len() > 0 {
        let x = bytes_cmp(a[0], b[0]);
        let y = bytes_cmp(b[0], c[0]);
        if x < 0 || y < 0 {
            lemma_bytes_cmp_strict(a[0], b[0], c[0]);
        } else {
            lemma_bytes_cmp_zero(a[0], b[0]);
            lemma_bytes_cmp_zero(b[0], c[0]);
            lemma_parts_cmp_trans(a.drop_first(), b.drop_first(), c.drop_first());
        }
    }
}

/// Compares two byte strings lexicographically.
pub fn compare_bytes(a: &[u8], b: &[u8]) -> (r: i8)
    ensures
        r as int == bytes_cmp(a@, b@),
{
    let mut i: usize = 0;
    assert(a@.subrange(0, a@.len() as int) =~= a@);
    assert(b@.subrange(0, b@.len() as int) =~= b@);
    while i < a.len() && i < b.len()
        invariant
            0 <= i <= a@.len(),
            i <= b@.len(),
            bytes_cmp(a@, b@) == bytes_cmp(a@.subrange(i as int, a@.len() as int), b@.subrange(i as int, b@.len() as int)),
        decreases a@.len() - i,
    {
        let ghost sa = a@.subrange(i as int, a@.len() as int);
        let ghost sb = b@.subrange(i as int, b@.len() as int);
        assert(sa[0] == a@[i as int]);
        assert(sb[0] == b@[i as int]);
        if a[i] < b[i] {
            return -1;
        }
        if a[i] > b[i] {
            return 1;
        }
        assert(sa.drop_first() =~= a@.subrange(i + 1, a@.len() as int));
        assert(sb.drop_first() =~= b@.subrange(i + 1, b@.len() as int));
        i = i + 1;
    }
    if i < a.len() {
        1
    } else if i < b.len() {
        -1
    } else {
        0
    }
}

/// Compares two paths component by component.
pub fn compare_paths(a: &str, b: &str) -> (r: i8)
    ensures
        r as int == path_cmp(a@, b@),
{
    let ca = path_components(a);
    let cb = path_components(b);
    let ghost ka = path_key(a@);
    let ghost kb = path_key(b@);
    let mut i: usize = 0;
    assert(ka.subrange(0, ka.len() as int) =~= ka);
    assert(kb.subrange(0, kb.len() as int) =~= kb);
    while i < ca.len() && i < cb.len()
        invariant
            0 <= i <= ca@.len(),
            i <= cb@.len(),
            ka.len() == ca@.len(),
            kb.len() == cb@.len(),
            forall|k: int| 0 <= k < ca@.len() ==> #[trigger] ka[k] == vstd::utf8::encode_utf8(ca@[k]@),
            forall|k: int| 0 <= k < cb@.len() ==> #[trigger] kb[k] == vstd::utf8::encode_utf8(cb@[k]@),
            path_cmp(a@, b@) == parts_cmp(ka.subrange(i as int, ka.len() as int), kb.subrange(i as int, kb.len() as int)),
        decreases ca@.len() - i,
    {
        let ghost sa = ka.subrange(i as int, ka.len() as int);
        let ghost sb = kb.subrange(i as int, kb.len() as int);
        assert(sa[0] == ka[i as int]);
        assert(sb[0] == kb[i as int]);
        let c = compare_bytes(ca[i].as_str().as_bytes(), cb[i].as_str().as_bytes());
        if c != 0 {
            return c;
        }
        assert(sa.drop_first() =~= ka.subrange(i + 1, ka.len() as int));
        assert(sb.drop_first() =~= kb.subrange(i + 1, kb.len() as int));
        i = i + 1;
    }
    if i < ca.len() {
        1
    } else if i < cb.len() {
        -1
    } else {
        0
    }
}

} // verus!
