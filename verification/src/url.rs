use vstd::prelude::*;

verus! {

/// An absolute resource identifier, split into the parts the crawler reads.
///
/// The components are held as byte strings, exactly as they appear on the
/// wire. `query` is the part after the first `?` of the request target and is
/// empty when there is none. Equality of two URLs is structural equality of
/// the four components.
#[derive(Debug)]
pub struct Url {
    pub scheme: Vec<u8>,
    pub host: Vec<u8>,
    pub path: Vec<u8>,
    pub query: Vec<u8>,
}

/// The mathematical image of a `Url`.
#[verifier::ext_equal]
pub ghost struct UrlV {
    pub scheme: Seq<u8>,
    pub host: Seq<u8>,
    pub path: Seq<u8>,
    pub query: Seq<u8>,
}

impl View for Url {
    type V = UrlV;

    open spec fn view(&self) -> UrlV {
        UrlV { scheme: self.scheme@, host: self.host@, path: self.path@, query: self.query@ }
    }
}

impl Url {
    pub fn new(scheme: Vec<u8>, host: Vec<u8>, path: Vec<u8>, query: Vec<u8>) -> (u: Url)
        ensures
            u@ == (UrlV { scheme: scheme@, host: host@, path: path@, query: query@ }),
    {
        Url { scheme, host, path, query }
    }

    /// An independent copy with the same components.
    pub fn duplicate(&self) -> (u: Url)
        ensures
            u@ == self@,
    {
        let u = Url {
            scheme: clone_bytes(&self.scheme),
            host: clone_bytes(&self.host),
            path: clone_bytes(&self.path),
            query: clone_bytes(&self.query),
        };
        assert(u@ =~= self@);
        u
    }
}

/// The views of a sequence of URLs.
pub open spec fn url_views(v: Seq<Url>) -> Seq<UrlV> {
    v.map_values(|x: Url| x@)
}

/// A copy of a byte string.
pub fn clone_bytes(v: &Vec<u8>) -> (r: Vec<u8>)
    ensures
        r@ == v@,
{
    let r = v.clone();
    assert forall|i: int| 0 <= i < v@.len() implies r@[i] == v@[i] by {
        assert(vstd::pervasive::cloned::<u8>(v[i], r[i]));
    }
    assert(r@ =~= v@);
    r
}

/// Whether two byte strings hold the same bytes.
pub fn bytes_eq(a: &Vec<u8>, b: &Vec<u8>) -> (r: bool)
    ensures
        r <==> a@ == b@,
{
    if a.len() != b.len() {
        return false;
    }
    let mut i: usize = 0;
    while i < a.len()
        invariant
            0 <= i <= a@.len(),
            a@.len() == b@.len(),
            forall|j: int| 0 <= j < i ==> a@[j] == b@[j],
        decreases a@.len() - i,
    {
        if a[i] != b[i] {
            return false;
        }
        i = i + 1;
    }
    assert(a@ =~= b@);
    true
}

/// Whether two URLs name the same resource.
pub fn url_eq(a: &Url, b: &Url) -> (r: bool)
    ensures
        r <==> a@ == b@,
{
    let r = bytes_eq(&a.scheme, &b.scheme) && bytes_eq(&a.host, &b.host) && bytes_eq(
        &a.path,
        &b.path,
    ) && bytes_eq(&a.query, &b.query);
    if r {
        assert(a@ =~= b@);
    }
    r
}

/// The position of the first occurrence of `c` in `v`, if any.
pub open spec fn spec_find_byte(v: Seq<u8>, c: u8) -> Option<int>
    decreases v.len(),
{
    if v.len() == 0 {
        None
    } else if v[0] == c {
        Some(0)
    } else {
        match spec_find_byte(v.drop_first(), c) {
            None => None,
            Some(i) => Some(i + 1),
        }
    }
}

pub proof fn lemma_find_byte(v: Seq<u8>, c: u8)
    ensures
        match spec_find_byte(v, c) {
            None => forall|i: int| 0 <= i < v.len() ==> v[i] != c,
            Some(i) => 0 <= i < v.len() && v[i] == c && forall|j: int| 0 <= j < i ==> v[j] != c,
        },
    decreases v.len(),
{
    if v.len() > 0 && v[0] != c {
        lemma_find_byte(v.drop_first(), c);
        assert forall|j: int| 1 <= j < v.len() implies v[j] == v.drop_first()[j - 1] by {}
    }
}

/// The first occurrence of `c` in `v`, by a linear scan.
pub fn find_byte(v: &Vec<u8>, c: u8) -> (r: Option<usize>)
    ensures
        match r {
            None => spec_find_byte(v@, c) is None,
            Some(i) => spec_find_byte(v@, c) == Some(i as int),
        },
{
    proof {
        lemma_find_byte(v@, c);
    }
    let mut i: usize = 0;
    while i < v.len()
        invariant
            0 <= i <= v@.len(),
            forall|j: int| 0 <= j < i ==> v@[j] != c,
            match spec_find_byte(v@, c) {
                None => forall|k: int| 0 <= k < v@.len() ==> v@[k] != c,
                Some(k) => 0 <= k < v@.len() && v@[k] == c && forall|j: int| 0 <= j < k ==> v@[j]
                    != c,
            },
        decreases v@.len() - i,
    {
        if v[i] == c {
            return Some(i);
        }
        i = i + 1;
    }
    None
}

/// The bytes of `v` from `from` (inclusive) to `to` (exclusive).
pub fn subrange_bytes(v: &Vec<u8>, from: usize, to: usize) -> (r: Vec<u8>)
    requires
        0 <= from <= to <= v@.len(),
    ensures
        r@ == v@.subrange(from as int, to as int),
{
    let mut r: Vec<u8> = Vec::new();
    let mut i: usize = from;
    while i < to
        invariant
            from <= i <= to <= v@.len(),
            r@ == v@.subrange(from as int, i as int),
        decreases to - i,
    {
        r.push(v[i]);
        proof {
            assert(r@ =~= v@.subrange(from as int, i + 1 as int));
        }
        i = i + 1;
    }
    r
}

} // verus!
