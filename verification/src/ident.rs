//! Resource identifiers: a namespace and a path, such as `minecraft:apple`.

use vstd::prelude::*;

verus! {

/// A character allowed in a namespace: `a-z`, `0-9`, `_` or `-`.
pub open spec fn is_namespace_char(c: char) -> bool {
    ('a' <= c && c <= 'z') || ('0' <= c && c <= '9') || c == '_' || c == '-'
}

/// A character allowed in a path: those of a namespace, `/` and `.`.
pub open spec fn is_path_char(c: char) -> bool {
    is_namespace_char(c) || c == '/' || c == '.'
}

/// The index of the first `:` in `s`, or the length of `s` when there is none.
pub open spec fn first_colon(s: Seq<char>) -> nat
    decreases s.len(),
{
    if s.len() == 0 {
        0
    } else if s[0] == ':' {
        0
    } else {
        first_colon(s.drop_first()) + 1
    }
}

/// Whether every character of `s` in `lo..hi` satisfies `namespace` (when
/// true) or path rules (when false).
pub open spec fn all_chars(s: Seq<char>, lo: int, hi: int, namespace: bool) -> bool {
    forall|i: int|
        lo <= i < hi ==> if namespace {
            is_namespace_char(#[trigger] s[i])
        } else {
            is_path_char(s[i])
        }
}

/// Where the path of the identifier `s` starts, or `None` when `s` is not a
/// valid identifier. A valid identifier matches
/// `^([a-z0-9_-]+:)?[a-z0-9_\/.-]+$`: with a colon, the part before the
/// first colon is a non-empty namespace and the rest a non-empty path;
/// without one, the whole string is a non-empty path.
pub open spec fn ident_path_start(s: Seq<char>) -> Option<nat> {
    let p = first_colon(s);
    if p < s.len() {
        if p > 0 && all_chars(s, 0, p as int, true) && p + 1 < s.len() && all_chars(
            s,
            (p + 1) as int,
            s.len() as int,
            false,
        ) {
            Some(p + 1)
        } else {
            None
        }
    } else {
        if s.len() > 0 && all_chars(s, 0, s.len() as int, false) {
            Some(0)
        } else {
            None
        }
    }
}

/// The characters of `minecraft`, the namespace of identifiers written
/// without one.
pub open spec fn minecraft() -> Seq<char> {
    seq!['m', 'i', 'n', 'e', 'c', 'r', 'a', 'f', 't']
}

/// A string that is a valid resource identifier, with the place where its
/// path starts.
///
/// If the namespace part is left off (the part before and including the
/// colon) the namespace is considered to be "minecraft" for the purposes of
/// equality.
#[derive(Debug)]
pub struct Ident {
    string: String,
    path_start: usize,
}

/// The error made when a string is not a valid resource identifier. Holds
/// the offending string.
#[derive(Clone, PartialEq, Eq, PartialOrd, Ord, Hash, Debug)]
pub struct IdentError(pub String);

proof fn lemma_first_colon(s: Seq<char>)
    ensures
        first_colon(s) <= s.len(),
        first_colon(s) < s.len() ==> s[first_colon(s) as int] == ':',
        forall|i: int| 0 <= i < first_colon(s) ==> s[i] != ':',
    decreases s.len(),
{
    if s.len() > 0 && s[0] != ':' {
        lemma_first_colon(s.drop_first());
        assert forall|i: int| 0 <= i < first_colon(s) implies s[i] != ':' by {
            if i > 0 {
                assert(s[i] == s.drop_first()[i - 1]);
            }
        }
    }
}

proof fn lemma_first_colon_unique(s: Seq<char>, p: nat)
    requires
        p <= s.len(),
        p < s.len() ==> s[p as int] == ':',
        forall|i: int| 0 <= i < p ==> s[i] != ':',
    ensures
        first_colon(s) == p,
    decreases s.len(),
{
    if s.len() > 0 && s[0] != ':' {
        assert forall|i: int| 0 <= i < p - 1 implies s.drop_first()[i] != ':' by {
            assert(s.drop_first()[i] == s[i + 1]);
        }
        if p < s.len() {
            assert(s.drop_first()[p - 1] == s[p as int]);
        }
        lemma_first_colon_unique(s.drop_first(), (p - 1) as nat);
    }
}

/// Checks the characters of `s` in `lo..hi` against the namespace rules
/// (when `namespace` is true) or the path rules.
fn check_chars(s: &str, lo: usize, hi: usize, namespace: bool) -> (b: bool)
    requires
        lo <= hi <= s@.len(),
    ensures
        b == all_chars(s@, lo as int, hi as int, namespace),
{
    let mut i = lo;
    while i < hi
        invariant
            lo <= i <= hi <= s@.len(),
            all_chars(s@, lo as int, i as int, namespace),
        decreases hi - i,
    {
        let c = s.get_char(i);
        let ok = ('a' <= c && c <= 'z') || ('0' <= c && c <= '9') || c == '_' || c == '-' || (
        !namespace && (c == '/' || c == '.'));
        if !ok {
            return false;
        }
        i = i + 1;
    }
    true
}

impl Ident {
    /// The whole string, as a spec value.
    pub closed spec fn spec_string(&self) -> Seq<char> {
        self.string@
    }

    /// Where the path starts within the string.
    pub closed spec fn spec_path_start(&self) -> nat {
        self.path_start as nat
    }

    /// The namespace: `minecraft` when the string has none.
    pub open spec fn spec_namespace(&self) -> Seq<char> {
        if self.spec_path_start() == 0 {
            minecraft()
        } else {
            self.spec_string().subrange(0, self.spec_path_start() - 1)
        }
    }

    /// The path.
    pub open spec fn spec_path(&self) -> Seq<char> {
        self.spec_string().subrange(self.spec_path_start() as int, self.spec_string().len() as int)
    }

    /// The invariant: the string is a valid identifier whose path starts
    /// where recorded.
    pub closed spec fn wf(&self) -> bool {
        ident_path_start(self.string@) == Some(self.path_start as nat)
    }

    #[verifier::type_invariant]
    spec fn inv(self) -> bool {
        self.wf()
    }

    /// Checks that `string` is a valid resource identifier and wraps it; gives
    /// the string back in the error otherwise.
    pub fn new(string: String) -> (r: Result<Self, IdentError>)
        ensures
            match ident_path_start(string@) {
                Some(p) => r matches Ok(id) && id.wf() && id.spec_string() == string@
                    && id.spec_path_start() == p,
                None => r matches Err(e) && e.0@ == string@,
            },
    {
        let n = string.as_str().unicode_len();
        let mut i: usize = 0;
        while i < n
            invariant
                0 <= i <= n,
                n == string@.len(),
                forall|j: int| 0 <= j < i ==> string@[j] != ':',
            ensures
                0 <= i <= n,
                i < n ==> string@[i as int] == ':',
                forall|j: int| 0 <= j < i ==> string@[j] != ':',
            decreases n - i,
        {
            if string.as_str().get_char(i) == ':' {
                break;
            }
            i = i + 1;
        }
        proof {
            lemma_first_colon_unique(string@, i as nat);
        }
        if i < n {
            if i > 0 && check_chars(string.as_str(), 0, i, true) && i + 1 < n && check_chars(
                string.as_str(),
                i + 1,
                n,
                false,
            ) {
                Ok(Ident { string, path_start: i + 1 })
            } else {
                Err(IdentError(string))
            }
        } else {
            if n > 0 && check_chars(string.as_str(), 0, n, false) {
                Ok(Ident { string, path_start: 0 })
            } else {
                Err(IdentError(string))
            }
        }
    }
}

impl Ident {
    proof fn lemma_ascii(&self)
        requires
            self.wf(),
        ensures
            vstd::utf8::is_ascii_chars(self.string@),
            self.path_start <= self.string@.len(),
            self.path_start > 0 ==> self.path_start >= 2,
    {
        let s = self.string@;
        lemma_first_colon(s);
        let p = first_colon(s);
        assert forall|i: int| 0 <= i < s.len() implies '\0' <= #[trigger] s[i] <= '\u{7f}' by {
            if p < s.len() {
                if i < p {
                    assert(is_namespace_char(s[i]));
                } else if i > p {
                    assert(is_path_char(s[i]));
                }
            } else {
                assert(is_path_char(s[i]));
            }
        }
    }

    /// Returns the namespace part of this resource identifier.
    ///
    /// If the underlying string does not contain a namespace followed by a
    /// ':' character, `"minecraft"` is returned.
    pub fn namespace(&self) -> (r: &str)
        ensures
            r@ == self.spec_namespace(),
    {
        proof {
            use_type_invariant(self);
            self.lemma_ascii();
        }
        if self.path_start == 0 {
            let m = "minecraft";
            proof {
                reveal_strlit("minecraft");
                assert(m@ =~= minecraft());
            }
            m
        } else {
            self.string.as_str().substring_ascii(0, self.path_start - 1)
        }
    }

    /// Returns the path part of this resource identifier.
    pub fn path(&self) -> (r: &str)
        ensures
            r@ == self.spec_path(),
    {
        proof {
            use_type_invariant(self);
            self.lemma_ascii();
        }
        self.string.as_str().substring_ascii(self.path_start, self.string.as_str().unicode_len())
    }

    /// Returns the underlying string as a `str`.
    pub fn as_str(&self) -> (r: &str)
        ensures
            r@ == self.spec_string(),
    {
        self.string.as_str()
    }

    /// Returns the identifier viewed through a borrowed string. No checks
    /// need to be performed.
    pub fn as_str_ident(&self) -> (r: Ident)
        ensures
            r.wf(),
            r.spec_string() == self.spec_string(),
            r.spec_path_start() == self.spec_path_start(),
    {
        proof {
            use_type_invariant(self);
        }
        Ident { string: self.string.clone(), path_start: self.path_start }
    }

    /// Returns the identifier with an owned copy of its string. No checks
    /// need to be performed.
    pub fn to_owned_ident(&self) -> (r: Ident)
        ensures
            r.wf(),
            r.spec_string() == self.spec_string(),
            r.spec_path_start() == self.spec_path_start(),
    {
        proof {
            use_type_invariant(self);
        }
        Ident { string: self.string.clone(), path_start: self.path_start }
    }

    /// Consumes the identifier and returns the underlying string.
    pub fn into_inner(self) -> (s: String)
        ensures
            s@ == self.spec_string(),
    {
        self.string
    }

    /// The full form `namespace:path`, with `minecraft:` added when the
    /// string has no namespace.
    pub fn into_string(self) -> (s: String)
        ensures
            s@ == self.spec_namespace() + seq![':'] + self.spec_path(),
    {
        proof {
            use_type_invariant(&self);
            self.lemma_ascii();
            lemma_first_colon(self.string@);
        }
        if self.path_start == 0 {
            let prefix = "minecraft:";
            proof {
                reveal_strlit("minecraft:");
            }
            let mut s = String::from_str(prefix);
            s.append(self.string.as_str());
            assert(s@ =~= self.spec_namespace() + seq![':'] + self.spec_path());
            s
        } else {
            assert(self.string@ =~= self.spec_namespace() + seq![':'] + self.spec_path());
            self.string
        }
    }

    /// Whether two identifiers name the same resource: same namespace and
    /// same path.
    pub fn ident_eq(&self, other: &Ident) -> (b: bool)
        ensures
            b == (self.spec_namespace() == other.spec_namespace() && self.spec_path()
                == other.spec_path()),
    {
        str_eq(self.namespace(), other.namespace()) && str_eq(self.path(), other.path())
    }
}

impl Clone for Ident {
    fn clone(&self) -> (r: Self)
        ensures
            r.spec_string() == self.spec_string(),
            r.spec_path_start() == self.spec_path_start(),
    {
        proof {
            use_type_invariant(self);
        }
        Ident { string: self.string.clone(), path_start: self.path_start }
    }
}

impl PartialEq for Ident {
    fn eq(&self, other: &Self) -> (b: bool) {
        self.ident_eq(other)
    }
}

impl vstd::std_specs::cmp::PartialEqSpecImpl for Ident {
    open spec fn obeys_eq_spec() -> bool {
        true
    }

    open spec fn eq_spec(&self, other: &Self) -> bool {
        self.spec_namespace() == other.spec_namespace() && self.spec_path() == other.spec_path()
    }
}

impl Eq for Ident {}

/// `str`'s `Hash`: feeds the string's bytes into the hasher. Nothing is
/// stated of the hasher's state afterwards.
pub assume_specification<H: core::hash::Hasher>[ <str as core::hash::Hash>::hash::<H> ](
    s: &str,
    state: &mut H,
);

impl core::hash::Hash for Ident {
    fn hash<H: core::hash::Hasher>(&self, state: &mut H) {
        self.namespace().hash(state);
        self.path().hash(state);
    }
}

impl Ident {
    /// Appends the underlying string, as a protocol string of at most 32767
    /// characters.
    pub fn encode(&self, w: &mut Vec<u8>) -> (r: Result<(), crate::protocol::EncodeError>)
        ensures
            self.spec_string().len() <= 32767 ==> r is Ok && final(w)@ == old(w)@
                + crate::protocol::prefixed_bytes(vstd::utf8::encode_utf8(self.spec_string())),
            !(self.spec_string().len() <= 32767) ==> r == Err::<(), crate::protocol::EncodeError>(
                crate::protocol::EncodeError::CharCountOutOfBounds,
            ) && final(w)@ == old(w)@,
    {
        proof {
            crate::protocol::lemma_utf8_len_bound(self.spec_string());
        }
        crate::protocol::encode_string_bounded(self.string.as_str(), 0, 32767, w)
    }

    /// Reads a protocol string of at most 32767 characters and checks that
    /// it is a valid identifier.
    pub fn decode(r: &mut &[u8]) -> (res: Result<Ident, crate::protocol::DecodeError>)
        ensures
            match crate::protocol::decode_string_spec(old(r)@, 0, 32767) {
                Ok((c, n)) => match ident_path_start(c) {
                    Some(p) => res matches Ok(id) && id.spec_string() == c && id.spec_path_start() == p
                        && final(r)@ == old(r)@.skip(n as int),
                    None => res == Err::<Ident, crate::protocol::DecodeError>(
                        crate::protocol::DecodeError::InvalidIdent,
                    ),
                },
                Err(e) => res == Err::<Ident, crate::protocol::DecodeError>(e),
            },
    {
        let s = crate::protocol::decode_string_bounded(0, 32767, r)?;
        match Ident::new(s) {
            Ok(id) => Ok(id),
            Err(_) => Err(crate::protocol::DecodeError::InvalidIdent),
        }
    }
}

/// Whether two strings hold the same characters.
pub(crate) fn str_eq(a: &str, b: &str) -> (r: bool)
    ensures
        r == (a@ == b@),
{
    let n = a.unicode_len();
    if n != b.unicode_len() {
        return false;
    }
    let mut i: usize = 0;
    while i < n
        invariant
            0 <= i <= n,
            n == a@.len(),
            n == b@.len(),
            forall|j: int| 0 <= j < i ==> a@[j] == b@[j],
        decreases n - i,
    {
        if a.get_char(i) != b.get_char(i) {
            return false;
        }
        i = i + 1;
    }
    assert(a@ =~= b@);
    true
}

/// A valid identifier is its namespace, a colon and its path, or just its
/// path when it was written without a namespace; either way its namespace
/// and path are made of the allowed characters, and are not empty.
pub proof fn ident_structure_law(id: Ident)
    requires
        id.wf(),
    ensures
        id.spec_path_start() == 0 ==> id.spec_string() == id.spec_path(),
        id.spec_path_start() > 0 ==> id.spec_string() == id.spec_namespace() + seq![':'] + id.spec_path(),
        id.spec_namespace().len() > 0,
        id.spec_path().len() > 0,
        forall|i: int| 0 <= i < id.spec_path().len() ==> is_path_char(#[trigger] id.spec_path()[i]),
        forall|i: int|
            0 <= i < id.spec_namespace().len() ==> is_namespace_char(#[trigger] id.spec_namespace()[i]),
{
    let s = id.spec_string();
    lemma_first_colon(s);
    if id.spec_path_start() > 0 {
        assert(s =~= id.spec_namespace() + seq![':'] + id.spec_path());
    } else {
        assert(s =~= id.spec_path());
    }
}

/// A character of the class `[a-z0-9_-]` that the identifier pattern
/// allows before the colon.
pub open spec fn pattern_namespace_class(c: char) -> bool {
    ('a' <= c && c <= 'z') || ('0' <= c && c <= '9') || c == '_' || c == '-'
}

/// A character of the class `[a-z0-9_/.-]` that the identifier pattern
/// allows after the colon.
pub open spec fn pattern_path_class(c: char) -> bool {
    ('a' <= c && c <= 'z') || ('0' <= c && c <= '9') || c == '_' || c == '/' || c == '.' || c == '-'
}

/// Whether `s` matches `^[a-z0-9_/.-]+$`: an identifier without a
/// namespace.
pub open spec fn matches_bare_pattern(s: Seq<char>) -> bool {
    s.len() > 0 && forall|i: int| 0 <= i < s.len() ==> pattern_path_class(#[trigger] s[i])
}

/// Whether `s` matches `^[a-z0-9_-]+:[a-z0-9_/.-]+$` with its colon at `k`.
pub open spec fn matches_namespaced_pattern(s: Seq<char>, k: int) -> bool {
    &&& 0 < k
    &&& k + 1 < s.len()
    &&& s[k] == ':'
    &&& forall|i: int| 0 <= i < k ==> pattern_namespace_class(#[trigger] s[i])
    &&& forall|i: int| k < i < s.len() ==> pattern_path_class(#[trigger] s[i])
}

/// A string is a valid identifier exactly when it matches the pattern
/// `^([a-z0-9_-]+:)?[a-z0-9_/.-]+$`; the path starts right after the colon,
/// or at the start when there is none.
pub proof fn ident_pattern_law(s: Seq<char>)
    ensures
        matches_bare_pattern(s) ==> ident_path_start(s) == Some(0nat),
        forall|k: int| matches_namespaced_pattern(s, k) ==> ident_path_start(s) == Some((k + 1) as nat),
        ident_path_start(s) matches Some(p) ==> (p == 0 && matches_bare_pattern(s)) || (p > 0
            && matches_namespaced_pattern(s, p - 1)),
{
    lemma_first_colon(s);
    let p = first_colon(s);
    if matches_bare_pattern(s) {
        assert forall|i: int| 0 <= i < s.len() implies s[i] != ':' by {
            assert(pattern_path_class(s[i]));
        }
        lemma_first_colon_unique(s, s.len());
        assert(all_chars(s, 0, s.len() as int, false)) by {
            assert forall|i: int| 0 <= i < s.len() implies is_path_char(s[i]) by {
                assert(pattern_path_class(s[i]));
            }
        }
    }
    assert forall|k: int| matches_namespaced_pattern(s, k) implies ident_path_start(s) == Some((k + 1) as nat) by {
        assert forall|i: int| 0 <= i < k implies s[i] != ':' by {
            assert(pattern_namespace_class(s[i]));
        }
        lemma_first_colon_unique(s, k as nat);
        assert(all_chars(s, 0, k, true)) by {
            assert forall|i: int| 0 <= i < k implies is_namespace_char(s[i]) by {
                assert(pattern_namespace_class(s[i]));
            }
        }
        assert(all_chars(s, k + 1, s.len() as int, false)) by {
            assert forall|i: int| k + 1 <= i < s.len() implies is_path_char(s[i]) by {
                assert(pattern_path_class(s[i]));
            }
        }
    }
    if let Some(q) = ident_path_start(s) {
        if p < s.len() {
            assert(q == p + 1);
            assert forall|i: int| 0 <= i < p implies pattern_namespace_class(#[trigger] s[i]) by {
                assert(is_namespace_char(s[i]));
            }
            assert forall|i: int| p < i < s.len() implies pattern_path_class(#[trigger] s[i]) by {
                assert(is_path_char(s[i]));
            }
            assert(matches_namespaced_pattern(s, q - 1));
        } else {
            assert forall|i: int| 0 <= i < s.len() implies pattern_path_class(#[trigger] s[i]) by {
                assert(is_path_char(s[i]));
            }
        }
    }
}

/// An identifier written without a namespace is in the `minecraft`
/// namespace.
pub proof fn default_namespace_law(id: Ident)
    requires
        id.wf(),
        id.spec_path_start() == 0,
    ensures
        id.spec_namespace() == "minecraft"@,
{
    reveal_strlit("minecraft");
    assert(minecraft() =~= "minecraft"@);
}

/// An identifier written without a namespace names the same resource as the
/// one written with `minecraft:` in front.
pub proof fn ident_default_namespace_law(with_ns: Ident, without: Ident)
    requires
        with_ns.wf(),
        without.wf(),
        with_ns.spec_string() == minecraft() + seq![':'] + without.spec_string(),
        without.spec_path_start() == 0,
    ensures
        with_ns.spec_namespace() == without.spec_namespace(),
        with_ns.spec_path() == without.spec_path(),
{
    let s = with_ns.spec_string();
    lemma_first_colon(s);
    lemma_first_colon(without.spec_string());
    assert(s[9] == ':');
    assert forall|i: int| 0 <= i < 9 implies s[i] != ':' by {
        assert(s[i] == minecraft()[i]);
    }
    lemma_first_colon_unique(s, 9);
    assert(with_ns.spec_namespace() =~= minecraft());
    assert(with_ns.spec_path() =~= without.spec_path());
}

} // verus!
