//! Key pairs for the Noise protocol.

use crate::cli::KeypairType;
use crate::text::{concat3, lemma_split_at, lemma_split_none, split};
use vstd::prelude::*;
use vstd::string::*;

verus! {

/// Why the Noise library did not do what it was asked. It is handed on to
/// whoever asked for a key pair.
#[verifier::external_type_specification]
#[verifier::external_body]
pub struct ExSnowError(snowstorm::snow::Error);

/// The name of a curve in the names of protocols.
pub open spec fn curve_name(curve: KeypairType) -> Seq<char> {
    match curve {
        KeypairType::X25519 => "25519"@,
        KeypairType::X448 => "448"@,
    }
}

/// The name of a curve in the names of protocols.
pub fn get_str_from_keypair_type(curve: KeypairType) -> (r: &'static str)
    ensures
        r@ == curve_name(curve),
{
    match curve {
        KeypairType::X25519 => "25519",
        KeypairType::X448 => "448",
    }
}

/// The curve of a key pair for which none is named.
pub fn default_curve() -> (r: KeypairType)
    ensures
        r == KeypairType::X25519,
{
    KeypairType::X25519
}

/// The name of the protocol that key pairs of a curve are for.
pub open spec fn protocol_name(curve: KeypairType) -> Seq<char> {
    "Noise_KK_"@ + curve_name(curve) + "_ChaChaPoly_BLAKE2s"@
}

/// The public key of a private key on Curve25519, as the Noise library computes
/// it.
pub uninterp spec fn x25519_public(private: Seq<u8>) -> Seq<u8>;

/// `snowstorm::Builder::generate_keypair`, on a `Builder::new` of the protocol
/// that the name parses to (`NoiseParams::from_str`, which takes both names): a
/// new key pair, private key first. On Curve25519 there always is one, of
/// 32 bytes each, and the public key is the one of the private key. For the curve
/// 448 the library has no implementation, and answers with its error. Which
/// private key it is, is left to chance, and nothing is said of it; the call does
/// not return where the operating system has no random bytes.
#[verifier::external_body]
fn generate_keypair(protocol: &str) -> (r: Result<(Vec<u8>, Vec<u8>), snowstorm::snow::Error>)
    requires
        protocol@ == protocol_name(KeypairType::X25519) || protocol@ == protocol_name(
            KeypairType::X448,
        ),
    ensures
        match r {
            Ok(keys) => {
                &&& protocol@ == protocol_name(KeypairType::X25519)
                &&& keys.0@.len() == 32
                &&& keys.1@.len() == 32
                &&& keys.1@ == x25519_public(keys.0@)
            },
            Err(_) => protocol@ == protocol_name(KeypairType::X448),
        },
{
    let pair = snowstorm::Builder::new(protocol.parse()?).generate_keypair()?;
    Ok((pair.private, pair.public))
}

/// The character for a number below 64 in base64.
pub open spec fn base64_char(n: int) -> char {
    if n < 26 {
        (n + 65) as char
    } else if n < 52 {
        (n + 71) as char
    } else if n < 62 {
        (n - 4) as char
    } else if n == 62 {
        '+'
    } else {
        '/'
    }
}

/// Bytes in standard base64 with padding: three bytes make four characters of
/// six bits each, and a last group of one or two bytes is filled up with `=`.
pub open spec fn base64_text(bytes: Seq<u8>) -> Seq<char>
    decreases bytes.len(),
{
    let a = bytes[0] as int;
    let b = if bytes.len() > 1 { bytes[1] as int } else { 0 };
    let c = if bytes.len() > 2 { bytes[2] as int } else { 0 };
    let group = seq![
        base64_char(a / 4),
        base64_char(a % 4 * 16 + b / 16),
        if bytes.len() > 1 { base64_char(b % 16 * 4 + c / 64) } else { '=' },
        if bytes.len() > 2 { base64_char(c % 64) } else { '=' },
    ];
    if bytes.len() == 0 {
        seq![]
    } else if bytes.len() <= 3 {
        group
    } else {
        group + base64_text(bytes.skip(3))
    }
}

/// `base64::encode`: the bytes in standard base64 with padding. The text has to
/// be one that can be held.
#[verifier::external_body]
fn base64_encode(bytes: &[u8]) -> (r: String)
    requires
        (bytes@.len() + 2) / 3 * 4 <= isize::MAX,
    ensures
        r@ == base64_text(bytes@),
{
    base64::encode(bytes)
}

/// A private key and its public key.
pub struct Keypair {
    pub private: Vec<u8>,
    pub public: Vec<u8>,
}

impl Keypair {
    /// How a key pair is shown to the user who asked for it.
    pub fn text(&self) -> (r: String)
        requires
            (self.private@.len() + 2) / 3 * 4 <= isize::MAX,
            (self.public@.len() + 2) / 3 * 4 <= isize::MAX,
        ensures
            r@ == keypair_text(self.private@, self.public@),
    {
        let private = base64_encode(self.private.as_slice());
        let public = base64_encode(self.public.as_slice());
        let mut r = concat3("Private Key:\n", private.as_str(), "\n\n");
        r.append(concat3("Public Key:\n", public.as_str(), "\n").as_str());
        r
    }
}

/// How a key pair is shown to the user who asked for it.
pub open spec fn keypair_text(private: Seq<u8>, public: Seq<u8>) -> Seq<char> {
    ("Private Key:\n"@ + base64_text(private) + "\n\n"@) + ("Public Key:\n"@ + base64_text(public)
        + "\n"@)
}

/// Why there is no key pair.
pub enum KeyError {
    /// The Noise library has none of this curve, and says so.
    UnsupportedCurve(KeypairType, snowstorm::snow::Error),
}

/// Generate a key pair, of Curve25519 if no curve is named.
pub fn genkey(curve: Option<KeypairType>) -> (r: Result<Keypair, KeyError>)
    ensures
        match r {
            Ok(pair) => {
                &&& curve != Some(KeypairType::X448)
                &&& pair.private@.len() == 32
                &&& pair.public@.len() == 32
                &&& pair.public@ == x25519_public(pair.private@)
            },
            Err(KeyError::UnsupportedCurve(c, _)) => {
                &&& curve == Some(KeypairType::X448)
                &&& c == KeypairType::X448
            },
        },
{
    let curve = match curve {
        Some(curve) => curve,
        None => default_curve(),
    };
    let protocol = concat3(
        "Noise_KK_",
        get_str_from_keypair_type(curve),
        "_ChaChaPoly_BLAKE2s",
    );
    proof {
        lemma_protocol_names_differ();
    }
    match generate_keypair(protocol.as_str()) {
        Ok((private, public)) => Ok(Keypair { private, public }),
        Err(e) => Err(KeyError::UnsupportedCurve(curve, e)),
    }
}

proof fn lemma_protocol_names_differ()
    ensures
        protocol_name(KeypairType::X25519) != protocol_name(KeypairType::X448),
{
    reveal_strlit("25519");
    reveal_strlit("448");
    assert(protocol_name(KeypairType::X25519).len() != protocol_name(KeypairType::X448).len());
}

proof fn lemma_base64_char(n: int)
    requires
        0 <= n < 64,
    ensures
        base64_char(n) != '\n',
{
    if n < 26 {
        assert(base64_char(n) as int == n + 65);
    } else if n < 52 {
        assert(base64_char(n) as int == n + 71);
    } else if n < 62 {
        assert(base64_char(n) as int == n - 4);
    }
}

proof fn lemma_base64_is_one_line(bytes: Seq<u8>)
    ensures
        !base64_text(bytes).contains('\n'),
    decreases bytes.len(),
{
    let text = base64_text(bytes);
    if bytes.len() > 0 {
        let a = bytes[0] as int;
        let b = if bytes.len() > 1 { bytes[1] as int } else { 0 };
        let c = if bytes.len() > 2 { bytes[2] as int } else { 0 };
        lemma_base64_char(a / 4);
        lemma_base64_char(a % 4 * 16 + b / 16);
        lemma_base64_char(b % 16 * 4 + c / 64);
        lemma_base64_char(c % 64);
        let rest = base64_text(bytes.skip(3));
        if bytes.len() > 3 {
            lemma_base64_is_one_line(bytes.skip(3));
        }
        if text.contains('\n') {
            let i = choose|i: int| 0 <= i < text.len() && text[i] == '\n';
            if i >= 4 {
                assert(rest[i - 4] == '\n');
            }
        }
    }
}

/// A key pair is shown in lines: below its heading the private key, and after an
/// empty line, below its heading, the public key.
pub proof fn law_key_pair_lines(private: Seq<u8>, public: Seq<u8>)
    ensures
        split(keypair_text(private, public), '\n') == seq![
            "Private Key:"@,
            base64_text(private),
            ""@,
            "Public Key:"@,
            base64_text(public),
            ""@,
        ],
{
    reveal_strlit("Private Key:\n");
    reveal_strlit("Private Key:");
    reveal_strlit("Public Key:\n");
    reveal_strlit("Public Key:");
    reveal_strlit("\n");
    reveal_strlit("\n\n");
    reveal_strlit("");
    let n = seq!['\n'];
    let a = "Private Key:"@;
    let b = "Public Key:"@;
    let x = base64_text(private);
    let y = base64_text(public);
    lemma_base64_is_one_line(private);
    lemma_base64_is_one_line(public);
    assert("Private Key:\n"@ =~= a + n);
    assert("Public Key:\n"@ =~= b + n);
    assert("\n"@ =~= n);
    assert("\n\n"@ =~= n + n);
    let t4 = y + n + ""@;
    let t3 = b + n + t4;
    let t2 = ""@ + n + t3;
    let t1 = x + n + t2;
    assert(keypair_text(private, public) =~= a + n + t1);
    lemma_split_none(""@, '\n');
    lemma_split_at(y, ""@, '\n');
    lemma_split_at(b, t4, '\n');
    lemma_split_at(""@, t3, '\n');
    lemma_split_at(x, t2, '\n');
    lemma_split_at(a, t1, '\n');
    assert(split(keypair_text(private, public), '\n') =~= seq![a, x, ""@, b, y, ""@]);
}

/// The name of a protocol is that of a Noise pattern whose middle part names the
/// curve; the two curves have different names.
pub proof fn law_protocol_names(curve: KeypairType)
    ensures
        split(protocol_name(curve), '_') == seq![
            "Noise"@,
            "KK"@,
            curve_name(curve),
            "ChaChaPoly"@,
            "BLAKE2s"@,
        ],
        curve_name(KeypairType::X25519) == "25519"@,
        curve_name(KeypairType::X448) == "448"@,
{
    reveal_strlit("Noise_KK_");
    reveal_strlit("Noise");
    reveal_strlit("KK");
    reveal_strlit("25519");
    reveal_strlit("448");
    reveal_strlit("_ChaChaPoly_BLAKE2s");
    reveal_strlit("ChaChaPoly");
    reveal_strlit("BLAKE2s");
    let bar = seq!['_'];
    let name = curve_name(curve);
    assert("Noise_KK_"@ =~= "Noise"@ + bar + "KK"@ + bar);
    assert("_ChaChaPoly_BLAKE2s"@ =~= bar + "ChaChaPoly"@ + bar + "BLAKE2s"@);
    let t3 = "ChaChaPoly"@ + bar + "BLAKE2s"@;
    let t2 = name + bar + t3;
    let t1 = "KK"@ + bar + t2;
    assert(protocol_name(curve) =~= "Noise"@ + bar + t1);
    lemma_split_none("BLAKE2s"@, '_');
    lemma_split_at("ChaChaPoly"@, "BLAKE2s"@, '_');
    lemma_split_at(name, t3, '_');
    lemma_split_at("KK"@, t2, '_');
    lemma_split_at("Noise"@, t1, '_');
    assert(split(protocol_name(curve), '_') =~= seq![
        "Noise"@,
        "KK"@,
        name,
        "ChaChaPoly"@,
        "BLAKE2s"@,
    ]);
}

}
