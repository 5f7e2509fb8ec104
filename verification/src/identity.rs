//! Deterministic sandbox identities. A game's isolated image is named by a
//! string derived from its identifier (with separators normalized for the
//! sandbox namespace) and the hex encoding of its decoded content hash, so
//! that distinct package versions get distinct identities without an
//! explicit version field.
use crate::codec::{
    base64_decode, base64_decode_of, hex_encode, hex_of, lemma_hex_of_digits, lemma_hex_of_injective,
    lemma_hex_of_len,
};
use crate::record::GameRecord;
use vstd::prelude::*;
use vstd::string::*;

verus! {

/// Sandbox namespaces refuse '-' inside name components, so it is mapped
/// to '_'.
pub open spec fn normalize_char(c: char) -> char {
    if c == '-' {
        '_'
    } else {
        c
    }
}

/// A game identifier as it appears inside a sandbox identity.
pub open spec fn normalized_id(s: Seq<char>) -> Seq<char> {
    s.map_values(|c: char| normalize_char(c))
}

/// Replaces every '-' in the identifier with '_'.
pub fn normalize_game_id(id: &str) -> (r: String)
    ensures
        r@ == normalized_id(id@),
{
    let n = id.unicode_len();
    let mut r = String::new();
    let mut i: usize = 0;
    while i < n
        invariant
            n == id@.len(),
            0 <= i <= n,
            r@ == normalized_id(id@.subrange(0, i as int)),
        decreases n - i,
    {
        proof {
            reveal_strlit("_");
        }
        let c = id.get_char(i);
        if c == '-' {
            r.append("_");
        } else {
            let piece = id.substring_char(i, i + 1);
            proof {
                assert(piece@ =~= seq![id@[i as int]]);
            }
            r.append(piece);
        }
        proof {
            let prev = id@.subrange(0, i as int);
            let cc = id@[i as int];
            assert(id@.subrange(0, (i + 1) as int) =~= prev.push(cc));
            let target = normalized_id(prev.push(cc));
            assert(target.len() == i + 1);
            assert(r@.len() == i + 1);
            assert forall|j: int| 0 <= j < i + 1 implies r@[j] == target[j] by {
                assert(target[j] == normalize_char(prev.push(cc)[j]));
                if j < i {
                    assert(prev.push(cc)[j] == prev[j]);
                    assert(prev[j] == id@[j]);
                    assert(r@[j] == normalized_id(prev)[j]);
                    assert(normalized_id(prev)[j] == normalize_char(prev[j]));
                } else {
                    assert(prev.push(cc)[j] == cc);
                }
            };
            assert(r@ =~= target);
        }
        i = i + 1;
    }
    proof {
        assert(id@.subrange(0, n as int) =~= id@);
    }
    r
}

/// The fixed namespace every generated game identity lives under.
pub open spec fn identity_prefix() -> Seq<char> {
    "edu.rit.csh.devcade.generated_game.id_"@
}

/// The separator between the identifier component and the hash component.
pub open spec fn identity_sep() -> Seq<char> {
    ".hash_"@
}

/// The sandbox identity derived from a game identifier and the decoded
/// bytes of its content hash.
pub open spec fn identity_of(id: Seq<char>, h: Seq<u8>) -> Seq<char> {
    identity_prefix() + normalized_id(id) + identity_sep() + hex_of(h)
}

/// Builds the sandbox identity from an identifier and the decoded content
/// hash bytes.
pub fn identity_from_parts(id: &str, hash_bytes: &Vec<u8>) -> (r: String)
    ensures
        r@ == identity_of(id@, hash_bytes@),
{
    let mut s = String::from_str("edu.rit.csh.devcade.generated_game.id_");
    let norm = normalize_game_id(id);
    s.append(norm.as_str());
    s.append(".hash_");
    let hx = hex_encode(hash_bytes);
    s.append(hx.as_str());
    proof {
        assert(s@ =~= identity_of(id@, hash_bytes@));
    }
    s
}

/// The sandbox identity of a game record: derived exactly when the
/// record's hash field is base64 the decoder accepts, and `None` otherwise.
pub fn sandbox_identity(record: &GameRecord) -> (r: Option<String>)
    ensures
        r is Some <==> base64_decode_of(record.hash@) is Some,
        r matches Some(id) ==> id@ == identity_of(
            record.id@,
            base64_decode_of(record.hash@).unwrap(),
        ),
{
    match base64_decode(record.hash.as_str()) {
        Some(bytes) => Some(identity_from_parts(record.id.as_str(), &bytes)),
        None => None,
    }
}

/// The identity is a pure function of the identifier and the decoded hash:
/// identical inputs always yield the identical identity.
pub proof fn lemma_identity_deterministic(id1: Seq<char>, h1: Seq<u8>, id2: Seq<char>, h2: Seq<u8>)
    requires
        id1 == id2,
        h1 == h2,
    ensures
        identity_of(id1, h1) == identity_of(id2, h2),
{
}

/// Equal identities can only come from equal components: the normalized
/// identifiers match and the decoded hash bytes match.
pub proof fn lemma_identity_injective(id1: Seq<char>, h1: Seq<u8>, id2: Seq<char>, h2: Seq<u8>)
    requires
        identity_of(id1, h1) == identity_of(id2, h2),
    ensures
        normalized_id(id1) == normalized_id(id2),
        h1 == h2,
{
    reveal_strlit("edu.rit.csh.devcade.generated_game.id_");
    reveal_strlit(".hash_");
    let p = identity_prefix();
    let sep = identity_sep();
    let n1 = normalized_id(id1);
    let n2 = normalized_id(id2);
    let x1 = hex_of(h1);
    let x2 = hex_of(h2);
    let s = identity_of(id1, h1);
    lemma_hex_of_digits(h1);
    lemma_hex_of_digits(h2);
    lemma_hex_of_len(h1);
    lemma_hex_of_len(h2);
    let d1 = p.len() + n1.len();
    let d2 = p.len() + n2.len();
    assert(sep[0] == '.' && sep[1] == 'h' && sep[2] == 'a' && sep[3] == 's' && sep[4] == 'h'
        && sep[5] == '_');
    assert(s.len() == p.len() + n1.len() + sep.len() + x1.len());
    assert(s.len() == p.len() + n2.len() + sep.len() + x2.len());
    assert forall|j: int| d1 < j < s.len() implies #[trigger] s[j] != '.' by {
        if j < d1 + 6 {
            assert(s[j] == sep[j - d1]);
        } else {
            assert(s[j] == x1[j - d1 - 6]);
        }
    };
    assert forall|j: int| d2 < j < s.len() implies #[trigger] s[j] != '.' by {
        if j < d2 + 6 {
            assert(s[j] == sep[j - d2]);
        } else {
            assert(s[j] == x2[j - d2 - 6]);
        }
    };
    assert(s[d1 as int] == sep[0]);
    assert(s[d2 as int] == sep[0]);
    assert(d1 == d2);
    assert(n1.len() == n2.len());
    assert(x1.len() == x2.len());
    assert forall|i: int| 0 <= i < n1.len() implies n1[i] == n2[i] by {
        assert(s[p.len() + i] == n1[i]);
        assert(s[p.len() + i] == n2[i]);
    };
    assert(n1 =~= n2);
    assert forall|i: int| 0 <= i < x1.len() implies x1[i] == x2[i] by {
        assert(s[d1 + 6 + i] == x1[i]);
        assert(s[d1 + 6 + i] == x2[i]);
    };
    assert(x1 =~= x2);
    lemma_hex_of_injective(h1, h2);
}

/// Changing either component changes the identity: records whose normalized
/// identifiers differ, or whose decoded hashes differ, never share a
/// sandbox identity.
pub proof fn lemma_identity_distinguishes(id1: Seq<char>, h1: Seq<u8>, id2: Seq<char>, h2: Seq<u8>)
    requires
        normalized_id(id1) != normalized_id(id2) || h1 != h2,
    ensures
        identity_of(id1, h1) != identity_of(id2, h2),
{
    if identity_of(id1, h1) == identity_of(id2, h2) {
        lemma_identity_injective(id1, h1, id2, h2);
    }
}

} // verus!
