//! Player skins and capes.

use vstd::prelude::*;

verus! {

/// The bytes that standard base64 decoding (with padding) gives for
/// `input`, or `None` when `input` is not valid base64.
pub uninterp spec fn base64_standard_decode(input: Seq<u8>) -> Option<Seq<u8>>;

/// Decodes standard base64 with `base64::decode`; the result is named by
/// [`base64_standard_decode`].
#[verifier::external_body]
fn decode_base64(input: &[u8]) -> (r: Option<Vec<u8>>)
    ensures
        match r {
            Some(v) => base64_standard_decode(input@) == Some(v@),
            None => base64_standard_decode(input@) is None,
        },
{
    base64::decode(input).ok()
}

/// Whether `url::Url::parse` accepts `s` as a URL.
pub uninterp spec fn url_parses(s: Seq<char>) -> bool;

/// Whether `url::Url::parse` accepts `s`; the answer is named by
/// [`url_parses`].
#[verifier::external_body]
fn parse_url(s: &str) -> (b: bool)
    ensures
        b == url_parses(s@),
{
    url::Url::parse(s).is_ok()
}

/// Why player textures could not be read.
#[derive(Clone, Copy, PartialEq, Eq, Debug, Structural)]
pub enum TexturesError {
    /// The payload was not valid base64.
    InvalidPayloadBase64,
    /// The signature was not valid base64.
    InvalidSignatureBase64,
}

/// The payload and the signature of signed textures, both decoded from
/// base64, in that order; the payload's error is reported first.
pub fn decode_payload_and_signature(payload: &str, signature: &str) -> (r: Result<
    (Vec<u8>, Vec<u8>),
    TexturesError,
>)
    ensures
        match (
            base64_standard_decode(vstd::utf8::encode_utf8(payload@)),
            base64_standard_decode(vstd::utf8::encode_utf8(signature@)),
        ) {
            (None, _) => r == Err::<(Vec<u8>, Vec<u8>), TexturesError>(
                TexturesError::InvalidPayloadBase64,
            ),
            (Some(_), None) => r == Err::<(Vec<u8>, Vec<u8>), TexturesError>(
                TexturesError::InvalidSignatureBase64,
            ),
            (Some(p), Some(s)) => r matches Ok((pv, sv)) && pv@ == p && sv@ == s,
        },
{
    let p = match decode_base64(payload.as_bytes()) {
        Some(p) => p,
        None => return Err(TexturesError::InvalidPayloadBase64),
    };
    let s = match decode_base64(signature.as_bytes()) {
        Some(s) => s,
        None => return Err(TexturesError::InvalidSignatureBase64),
    };
    Ok((p, s))
}

/// The URLs of the skin and cape of a player, with the signed payload they
/// were read from.
#[derive(PartialEq, Eq, Debug)]
pub struct SignedPlayerTextures {
    payload: Vec<u8>,
    signature: Vec<u8>,
    skin_url: String,
    cape_url: Option<String>,
}

impl SignedPlayerTextures {
    pub closed spec fn spec_payload(&self) -> Seq<u8> {
        self.payload@
    }

    pub closed spec fn spec_signature(&self) -> Seq<u8> {
        self.signature@
    }

    pub closed spec fn spec_skin(&self) -> Seq<char> {
        self.skin_url@
    }

    pub closed spec fn spec_cape(&self) -> Option<Seq<char>> {
        match self.cape_url {
            Some(c) => Some(c@),
            None => None,
        }
    }

    /// The skin URL, and the cape URL when there is one, are valid URLs.
    #[verifier::type_invariant]
    spec fn urls_valid(self) -> bool {
        &&& url_parses(self.skin_url@)
        &&& self.cape_url matches Some(c) ==> url_parses(c@)
    }

    /// Textures made of a decoded payload and signature and the URLs read
    /// from the payload; `None` when the skin URL, or the cape URL, is not
    /// a valid URL.
    pub fn new(payload: Vec<u8>, signature: Vec<u8>, skin_url: String, cape_url: Option<String>) -> (t: Option<Self>)
        ensures
            t is Some <==> url_parses(skin_url@) && (cape_url matches Some(c) ==> url_parses(c@)),
            t matches Some(t) ==> {
                &&& t.spec_payload() == payload@
                &&& t.spec_signature() == signature@
                &&& t.spec_skin() == skin_url@
                &&& t.spec_cape() == (match cape_url {
                    Some(c) => Some(c@),
                    None => None::<Seq<char>>,
                })
            },
    {
        if !parse_url(skin_url.as_str()) {
            return None;
        }
        let cape_ok = match &cape_url {
            Some(c) => parse_url(c.as_str()),
            None => true,
        };
        if !cape_ok {
            return None;
        }
        Some(Self { payload, signature, skin_url, cape_url })
    }

    pub fn payload(&self) -> (p: &[u8])
        ensures
            p@ == self.spec_payload(),
    {
        self.payload.as_slice()
    }

    pub fn signature(&self) -> (s: &[u8])
        ensures
            s@ == self.spec_signature(),
    {
        self.signature.as_slice()
    }

    /// Returns the URL to the skin, which is a valid URL.
    pub fn skin(&self) -> (s: &str)
        ensures
            s@ == self.spec_skin(),
            url_parses(s@),
    {
        proof {
            use_type_invariant(self);
        }
        self.skin_url.as_str()
    }

    /// Returns the URL to the cape, if there is a cape; it is a valid URL.
    pub fn cape(&self) -> (c: Option<&str>)
        ensures
            match self.spec_cape() {
                Some(u) => c matches Some(s) && s@ == u && url_parses(u),
                None => c is None,
            },
    {
        proof {
            use_type_invariant(self);
        }
        match &self.cape_url {
            Some(u) => Some(u.as_str()),
            None => None,
        }
    }
}

impl Clone for SignedPlayerTextures {
    /// The same payload, signature and URLs.
    fn clone(&self) -> (c: Self)
        ensures
            c.spec_payload() == self.spec_payload(),
            c.spec_signature() == self.spec_signature(),
            c.spec_skin() == self.spec_skin(),
            c.spec_cape() == self.spec_cape(),
    {
        proof {
            use_type_invariant(self);
        }
        let cape_url = match &self.cape_url {
            Some(u) => Some(u.clone()),
            None => None,
        };
        let payload = self.payload.clone();
        let signature = self.signature.clone();
        proof {
            assert(payload@ =~= self.payload@);
            assert(signature@ =~= self.signature@);
        }
        Self { payload, signature, skin_url: self.skin_url.clone(), cape_url }
    }
}

/// What optional textures hold, as plain values: the payload, the
/// signature, the skin URL and the cape URL.
pub open spec fn textures_view(t: Option<SignedPlayerTextures>) -> Option<
    (Seq<u8>, Seq<u8>, Seq<char>, Option<Seq<char>>),
> {
    match t {
        None => None,
        Some(t) => Some((t.spec_payload(), t.spec_signature(), t.spec_skin(), t.spec_cape())),
    }
}

/// Whether two optional textures hold the same.
pub fn textures_eq(a: &Option<SignedPlayerTextures>, b: &Option<SignedPlayerTextures>) -> (r: bool)
    ensures
        r == (textures_view(*a) == textures_view(*b)),
{
    match (a, b) {
        (None, None) => true,
        (Some(x), Some(y)) => {
            let capes = match (&x.cape_url, &y.cape_url) {
                (None, None) => true,
                (Some(c), Some(d)) => crate::ident::str_eq(c.as_str(), d.as_str()),
                _ => false,
            };
            crate::item::bytes_eq(&x.payload, &y.payload) && crate::item::bytes_eq(
                &x.signature,
                &y.signature,
            ) && crate::ident::str_eq(x.skin_url.as_str(), y.skin_url.as_str()) && capes
        },
        _ => false,
    }
}

} // verus!
