//! Content-addressed cache keys for deduplicating evaluation runs: two
//! runs over the same scenario text, prompt, tool and model share a key.
//! Hashing is delegated to SHA-256 through a trusted wrapper; the hex
//! rendering and the key's string form are verified.

use vstd::prelude::*;

use sha2::Digest;

use vstd::string::StringSliceAdditionalSpecFns;

use crate::json::hex_char;
use crate::text::chars_to_string;

verus! {

/// The SHA-256 digest of a byte sequence, as the `sha2` crate computes it.
pub uninterp spec fn sha256_of(data: Seq<u8>) -> Seq<u8>;

/// Relies on `sha2::Sha256` (through `digest::Digest::digest`): the
/// 32-byte digest is a function of the input bytes alone.
#[verifier::external_body]
fn sha256_digest(data: &[u8]) -> (r: Vec<u8>)
    ensures
        r@ == sha256_of(data@),
        r@.len() == 32,
{
    sha2::Sha256::digest(data).to_vec()
}

/// The lowercase hexadecimal rendering of a byte sequence, two digits per
/// byte.
pub open spec fn hex_of_bytes(bytes: Seq<u8>) -> Seq<char>
    decreases bytes.len(),
{
    if bytes.len() == 0 {
        Seq::empty()
    } else {
        hex_of_bytes(bytes.drop_last()) + seq![
            hex_char(bytes.last() as int / 16),
            hex_char(bytes.last() as int % 16),
        ]
    }
}

/// The lowercase hexadecimal rendering of a byte sequence.
fn bytes_to_hex(bytes: &Vec<u8>) -> (r: String)
    ensures
        r@ == hex_of_bytes(bytes@),
{
    let mut out: Vec<char> = Vec::new();
    let mut i: usize = 0;
    while i < bytes.len()
        invariant
            i <= bytes@.len(),
            out@ == hex_of_bytes(bytes@.take(i as int)),
        decreases bytes@.len() - i,
    {
        proof {
            assert(bytes@.take(i + 1).drop_last() =~= bytes@.take(i as int));
            assert(bytes@.take(i + 1).last() == bytes@[i as int]);
        }
        let b = bytes[i];
        out.push(hex_digit((b / 16) as u32));
        out.push(hex_digit((b % 16) as u32));
        i += 1;
    }
    proof {
        assert(bytes@.take(i as int) =~= bytes@);
    }
    chars_to_string(&out)
}

/// The hexadecimal digit character for `d`.
fn hex_digit(d: u32) -> (c: char)
    requires
        d < 16,
    ensures
        c == hex_char(d as int),
{
    if d == 0 {
        '0'
    } else if d == 1 {
        '1'
    } else if d == 2 {
        '2'
    } else if d == 3 {
        '3'
    } else if d == 4 {
        '4'
    } else if d == 5 {
        '5'
    } else if d == 6 {
        '6'
    } else if d == 7 {
        '7'
    } else if d == 8 {
        '8'
    } else if d == 9 {
        '9'
    } else if d == 10 {
        'a'
    } else if d == 11 {
        'b'
    } else if d == 12 {
        'c'
    } else if d == 13 {
        'd'
    } else if d == 14 {
        'e'
    } else {
        'f'
    }
}

/// A cache key identifying one evaluation configuration.
#[derive(Debug, Clone, PartialEq, Eq, Hash)]
pub struct CacheKey {
    /// Hex SHA-256 of the scenario configuration text.
    pub scenario_hash: String,
    /// Hex SHA-256 of the task prompt.
    pub prompt_hash: String,
    /// Tool name, carried verbatim.
    pub tool: String,
    /// Model name, carried verbatim.
    pub model: String,
}

/// The mathematical shape of a cache key.
pub struct CacheKeySpec {
    pub scenario_hash: Seq<char>,
    pub prompt_hash: Seq<char>,
    pub tool: Seq<char>,
    pub model: Seq<char>,
}

impl View for CacheKey {
    type V = CacheKeySpec;

    open spec fn view(&self) -> CacheKeySpec {
        CacheKeySpec {
            scenario_hash: self.scenario_hash@,
            prompt_hash: self.prompt_hash@,
            tool: self.tool@,
            model: self.model@,
        }
    }
}

/// The key computed from the four run parameters: each hash is the hex
/// SHA-256 of its own input's bytes, and the names are carried verbatim.
pub open spec fn spec_compute_key(
    scenario_bytes: Seq<u8>,
    prompt_bytes: Seq<u8>,
    tool: Seq<char>,
    model: Seq<char>,
) -> CacheKeySpec {
    CacheKeySpec {
        scenario_hash: hex_of_bytes(sha256_of(scenario_bytes)),
        prompt_hash: hex_of_bytes(sha256_of(prompt_bytes)),
        tool: tool,
        model: model,
    }
}

/// The model name with path separators replaced, safe for file names.
pub open spec fn sanitize_model(m: Seq<char>) -> Seq<char> {
    m.map_values(
        |c: char|
            if c == '/' || c == '\\' {
                '_'
            } else {
                c
            },
    )
}

/// The key's string form: the four components joined with underscores,
/// the model sanitized for file names.
pub open spec fn spec_key_string(k: CacheKeySpec) -> Seq<char> {
    k.scenario_hash + seq!['_'] + k.prompt_hash + seq!['_'] + k.tool + seq!['_']
        + sanitize_model(k.model)
}

impl CacheKey {
    /// Computes the key for a run: SHA-256 over the scenario text and the
    /// prompt, with tool and model carried as given.
    pub fn compute(scenario_yaml: &str, prompt: &str, tool: &str, model: &str) -> (r: CacheKey)
        ensures
            r@ == spec_compute_key(
                scenario_yaml.spec_bytes(),
                prompt.spec_bytes(),
                tool@,
                model@,
            ),
    {
        let scenario_digest = sha256_digest(scenario_yaml.as_bytes());
        let prompt_digest = sha256_digest(prompt.as_bytes());
        CacheKey {
            scenario_hash: bytes_to_hex(&scenario_digest),
            prompt_hash: bytes_to_hex(&prompt_digest),
            tool: tool.to_owned(),
            model: model.to_owned(),
        }
    }

    /// The key as one string, usable as a file name.
    pub fn as_string(&self) -> (r: String)
        ensures
            r@ == spec_key_string(self@),
    {
        let model_chars = crate::text::to_chars(self.model.as_str());
        let mut safe: Vec<char> = Vec::new();
        let mut i: usize = 0;
        while i < model_chars.len()
            invariant
                i <= model_chars@.len(),
                safe@ == sanitize_model(model_chars@.take(i as int)),
            decreases model_chars@.len() - i,
        {
            let c = model_chars[i];
            if c == '/' || c == '\\' {
                safe.push('_');
            } else {
                safe.push(c);
            }
            i += 1;
            proof {
                assert(safe@ =~= sanitize_model(model_chars@.take(i as int)));
            }
        }
        proof {
            assert(model_chars@.take(i as int) =~= model_chars@);
        }
        let safe_model = chars_to_string(&safe);
        let mut out = String::new();
        out.append(self.scenario_hash.as_str());
        out.append("_");
        out.append(self.prompt_hash.as_str());
        out.append("_");
        out.append(self.tool.as_str());
        out.append("_");
        out.append(safe_model.as_str());
        proof {
            reveal_strlit("_");
            assert("_"@ =~= seq!['_']);
            assert(out@ =~= spec_key_string(self@));
        }
        out
    }
}

/// Computes the cache key for a run's parameters.
pub fn compute_cache_key(scenario_yaml: &str, prompt: &str, tool: &str, model: &str) -> (r:
    CacheKey)
    ensures
        r@ == spec_compute_key(scenario_yaml.spec_bytes(), prompt.spec_bytes(), tool@, model@),
{
    CacheKey::compute(scenario_yaml, prompt, tool, model)
}

/// The key computation is deterministic: two keys computed from the same
/// four inputs are the same key.
pub proof fn lemma_cache_key_deterministic(
    k1: CacheKey,
    k2: CacheKey,
    scenario_bytes: Seq<u8>,
    prompt_bytes: Seq<u8>,
    tool: Seq<char>,
    model: Seq<char>,
)
    requires
        k1@ == spec_compute_key(scenario_bytes, prompt_bytes, tool, model),
        k2@ == spec_compute_key(scenario_bytes, prompt_bytes, tool, model),
    ensures
        k1@ == k2@,
{
}

/// Each input feeds exactly one component: changing the scenario text
/// leaves the prompt hash, tool and model untouched; changing the prompt
/// leaves the scenario hash, tool and model untouched; tool and model are
/// carried verbatim and touch no hash.
pub proof fn lemma_cache_key_component_isolation(
    y1: Seq<u8>,
    y2: Seq<u8>,
    p1: Seq<u8>,
    p2: Seq<u8>,
    t1: Seq<char>,
    t2: Seq<char>,
    m1: Seq<char>,
    m2: Seq<char>,
)
    ensures
        spec_compute_key(y1, p1, t1, m1).prompt_hash == spec_compute_key(y2, p1, t2, m2).prompt_hash,
        spec_compute_key(y1, p1, t1, m1).scenario_hash == spec_compute_key(
            y1,
            p2,
            t2,
            m2,
        ).scenario_hash,
        spec_compute_key(y1, p1, t1, m1).tool == t1,
        spec_compute_key(y1, p1, t1, m1).model == m1,
{
}

} // verus!
