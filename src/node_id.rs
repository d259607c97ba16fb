//! The identifier a host hands out: the base64 of its 32-byte node key, a
//! dot, then the protocol name (ALPN) it listens on.
use base64::Engine;
use vstd::prelude::*;
use vstd::string::StringSliceAdditionalSpecFns;

verus! {

/// Length of a node key in bytes.
pub const NODE_KEY_SIZE: usize = 32;

/// Length of the protocol name a host generates.
pub const ALPN_SIZE: usize = 32;

/// What the standard base64 engine (with padding) decodes a text into, or
/// `None` where it refuses it.
pub uninterp spec fn base64_decoded(text: Seq<u8>) -> Option<Seq<u8>>;

/// The standard base64 text (with padding) of some bytes.
pub uninterp spec fn base64_encoded(bytes: Seq<u8>) -> Seq<char>;

/// Relies on base64's `Engine::decode` on `STANDARD`: the bytes a text
/// decodes to, or an error; the result depends on the text alone.
#[verifier::external_body]
fn decode_base64(text: &[u8]) -> (r: Option<Vec<u8>>)
    ensures
        match r {
            Some(v) => base64_decoded(text@) == Some(v@),
            None => base64_decoded(text@) is None,
        },
{
    match base64::engine::general_purpose::STANDARD.decode(text) {
        Ok(v) => Some(v),
        Err(_) => None,
    }
}

/// Relies on base64's `Engine::encode` on `STANDARD`: the text of some bytes,
/// which depends on the bytes alone.
#[verifier::external_body]
fn encode_base64(bytes: &[u8]) -> (r: String)
    ensures
        r@ == base64_encoded(bytes@),
{
    base64::engine::general_purpose::STANDARD.encode(bytes)
}

/// The characters of nanoid's `SAFE` alphabet: ASCII letters, digits, `_`
/// and `-`.
pub open spec fn is_safe_char(c: char) -> bool {
    ('a' <= c && c <= 'z') || ('A' <= c && c <= 'Z') || ('0' <= c && c <= '9') || c == '_' || c
        == '-'
}

/// Relies on `nanoid::format` with `rngs::default` and `alphabet::SAFE`: it
/// pushes characters of the alphabet until the text holds `size` of them. It
/// never returns for `size == 0`, as it tests the length only after a push.
#[verifier::external_body]
fn random_safe_text(size: usize) -> (r: String)
    requires
        size > 0,
    ensures
        r@.len() == size,
        forall|i: int| 0 <= i < r@.len() ==> is_safe_char(#[trigger] r@[i]),
{
    nanoid::format(nanoid::rngs::default, &nanoid::alphabet::SAFE, size)
}

/// Generates a fresh protocol name for a host: 32 random characters of the
/// safe alphabet, so never a dot.
pub fn generate_alpn() -> (r: String)
    ensures
        r@.len() == ALPN_SIZE,
        forall|i: int| 0 <= i < r@.len() ==> is_safe_char(#[trigger] r@[i]),
{
    random_safe_text(ALPN_SIZE)
}

/// The identifier of a host with this node key and protocol name.
pub open spec fn node_id_text(key: Seq<u8>, alpn: Seq<char>) -> Seq<char> {
    base64_encoded(key) + seq!['.'] + alpn
}

/// Writes the identifier `base64(key) + "." + alpn`.
pub fn format_node_id(key: &[u8; NODE_KEY_SIZE], alpn: &str) -> (r: String)
    ensures
        r@ == node_id_text(key@, alpn@),
{
    let mut text = encode_base64(key.as_slice());
    text.append(".");
    proof {
        reveal_strlit(".");
        assert(seq!['.'] =~= "."@);
    }
    text.append(alpn);
    text
}

/// Why an identifier is refused.
#[derive(PartialEq, Eq, Structural, Clone, Copy, Debug)]
pub enum NodeIdError {
    /// It does not split into exactly two parts on `.`.
    Segments,
    /// Its first part is no standard base64.
    Encoding,
    /// Its first part decodes to some other number of bytes than 32.
    KeyLength,
}

/// The number of dots in a text.
pub open spec fn count_dots(s: Seq<u8>) -> nat
    decreases s.len(),
{
    if s.len() == 0 {
        0
    } else {
        count_dots(s.drop_last()) + if s.last() == 46u8 {
            1nat
        } else {
            0nat
        }
    }
}

/// The index of the first dot in a text, or its length if it has none.
pub open spec fn first_dot(s: Seq<u8>) -> int
    decreases s.len(),
{
    if s.len() == 0 {
        0
    } else {
        let f = first_dot(s.drop_last());
        if f < s.len() - 1 {
            f
        } else if s.last() == 46u8 {
            s.len() - 1
        } else {
            s.len() as int
        }
    }
}

/// What an identifier parses to: the node key and the protocol name, or why
/// it is refused.
pub open spec fn parse_node_id_spec(id: Seq<u8>) -> Result<(Seq<u8>, Seq<u8>), NodeIdError> {
    if count_dots(id) != 1 {
        Err(NodeIdError::Segments)
    } else {
        let d = first_dot(id);
        match base64_decoded(id.subrange(0, d)) {
            None => Err(NodeIdError::Encoding),
            Some(k) => if k.len() != NODE_KEY_SIZE {
                Err(NodeIdError::KeyLength)
            } else {
                Ok((k, id.subrange(d + 1, id.len() as int)))
            },
        }
    }
}

/// A parsed identifier: the host's node key and its protocol name.
pub struct NodeTicket {
    pub key: [u8; NODE_KEY_SIZE],
    pub alpn: Vec<u8>,
}

/// Splits an identifier on `.` into the base64 of a 32-byte node key and a
/// protocol name, and decodes the key.
pub fn parse_node_id(id: &str) -> (r: Result<NodeTicket, NodeIdError>)
    ensures
        match r {
            Ok(t) => parse_node_id_spec(id.spec_bytes()) == Ok::<_, NodeIdError>((t.key@, t.alpn@)),
            Err(e) => parse_node_id_spec(id.spec_bytes()) == Err::<(Seq<u8>, Seq<u8>), NodeIdError>(
                e,
            ),
        },
{
    let bytes = id.as_bytes();
    let n = bytes.len();
    let mut dots: usize = 0;
    let mut first: usize = 0;
    let mut i: usize = 0;
    while i < n
        invariant
            i <= n,
            n == bytes@.len(),
            dots <= i,
            dots as nat == count_dots(bytes@.subrange(0, i as int)),
            first as int == first_dot(bytes@.subrange(0, i as int)),
            first <= i,
        decreases n - i,
    {
        let ghost prev = bytes@.subrange(0, i as int);
        assert(bytes@.subrange(0, i + 1).drop_last() =~= prev);
        if bytes[i] == 46u8 {
            dots = dots + 1;
            if first == i {
                first = i;
            }
        } else if first == i {
            first = i + 1;
        }
        i = i + 1;
    }
    assert(bytes@.subrange(0, n as int) =~= bytes@);
    if dots != 1 {
        return Err(NodeIdError::Segments);
    }
    assert(first < n) by {
        lemma_first_dot_found(bytes@);
    }
    let mut head: Vec<u8> = Vec::new();
    let mut j: usize = 0;
    while j < first
        invariant
            j <= first,
            first < n,
            n == bytes@.len(),
            head@ == bytes@.subrange(0, j as int),
        decreases first - j,
    {
        head.push(bytes[j]);
        j = j + 1;
        assert(head@ =~= bytes@.subrange(0, j as int));
    }
    let mut alpn: Vec<u8> = Vec::new();
    let mut j: usize = first + 1;
    while j < n
        invariant
            first < j <= n,
            n == bytes@.len(),
            alpn@ == bytes@.subrange(first + 1, j as int),
        decreases n - j,
    {
        alpn.push(bytes[j]);
        j = j + 1;
        assert(alpn@ =~= bytes@.subrange(first + 1, j as int));
    }
    let decoded = match decode_base64(head.as_slice()) {
        Some(v) => v,
        None => {
            return Err(NodeIdError::Encoding);
        },
    };
    if decoded.len() != NODE_KEY_SIZE {
        return Err(NodeIdError::KeyLength);
    }
    let mut key = [0u8; NODE_KEY_SIZE];
    let mut k: usize = 0;
    while k < NODE_KEY_SIZE
        invariant
            k <= NODE_KEY_SIZE,
            decoded@.len() == NODE_KEY_SIZE,
            forall|m: int| 0 <= m < k ==> key@[m] == decoded@[m],
        decreases NODE_KEY_SIZE - k,
    {
        key[k] = decoded[k];
        k = k + 1;
    }
    assert(key@ =~= decoded@);
    Ok(NodeTicket { key, alpn })
}

/// A text with a dot has its first dot inside it.
proof fn lemma_first_dot_found(s: Seq<u8>)
    requires
        count_dots(s) > 0,
    ensures
        0 <= first_dot(s) < s.len(),
        s[first_dot(s)] == 46u8,
    decreases s.len(),
{
    if s.len() > 0 {
        if count_dots(s.drop_last()) > 0 {
            lemma_first_dot_found(s.drop_last());
        } else {
            lemma_first_dot_absent(s.drop_last());
        }
    }
}

/// A text without a dot has no first dot.
proof fn lemma_first_dot_absent(s: Seq<u8>)
    requires
        count_dots(s) == 0,
    ensures
        first_dot(s) == s.len(),
    decreases s.len(),
{
    if s.len() > 0 {
        lemma_first_dot_absent(s.drop_last());
    }
}

} // verus!
