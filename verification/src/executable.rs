//! Locating a game's entry-point executable inside the unpacked artifact
//! tree: prefer the base name of a runtime-descriptor file if one is
//! present, otherwise fall back to the game's display name. The two-tier
//! heuristic supports managed-runtime and native binaries without an
//! explicit manifest field.
use vstd::prelude::*;
use vstd::string::*;

verus! {

/// Whether `s` ends with `sfx`.
pub open spec fn ends_with(s: Seq<char>, sfx: Seq<char>) -> bool {
    s.len() >= sfx.len() && s.skip(s.len() - sfx.len()) == sfx
}

/// The runtime-descriptor suffix that marks a managed-runtime entry point.
pub open spec fn descriptor_suffix() -> Seq<char> {
    ".runtimeconfig.json"@
}

/// The executable name the first runtime descriptor in the listing yields:
/// its file name with the descriptor suffix stripped.
pub open spec fn first_descriptor_base(names: Seq<Seq<char>>) -> Option<Seq<char>>
    decreases names.len(),
{
    if names.len() == 0 {
        None
    } else if ends_with(names[0], descriptor_suffix()) {
        Some(names[0].take(names[0].len() - descriptor_suffix().len()))
    } else {
        first_descriptor_base(names.drop_first())
    }
}

/// Whether `s` ends with `sfx`, comparing characters.
fn str_ends_with(s: &str, sfx: &str) -> (r: bool)
    ensures
        r == ends_with(s@, sfx@),
{
    let n = s.unicode_len();
    let m = sfx.unicode_len();
    if m > n {
        return false;
    }
    let mut i: usize = 0;
    while i < m
        invariant
            m <= n,
            n == s@.len(),
            m == sfx@.len(),
            0 <= i <= m,
            forall|j: int| 0 <= j < i ==> s@[n - m + j] == sfx@[j],
        decreases m - i,
    {
        if s.get_char(n - m + i) != sfx.get_char(i) {
            proof {
                assert(s@.skip(n - m)[i as int] != sfx@[i as int]);
            }
            return false;
        }
        i = i + 1;
    }
    proof {
        assert(s@.skip(n - m) =~= sfx@);
    }
    true
}

/// Picks the entry-point executable name from a directory listing: the base
/// name of the first runtime descriptor if any entry carries the descriptor
/// suffix, otherwise the given display name.
pub fn infer_executable(names: &Vec<String>, display_name: &str) -> (r: String)
    ensures
        match first_descriptor_base(names.deep_view()) {
            Some(base) => r@ == base,
            None => r@ == display_name@,
        },
{
    let n = names.len();
    let mut i: usize = 0;
    proof {
        assert(names.deep_view().skip(0) =~= names.deep_view());
    }
    while i < n
        invariant
            n == names@.len(),
            names.deep_view().len() == names@.len(),
            forall|k: int| 0 <= k < n ==> names.deep_view()[k] == names@[k]@,
            0 <= i <= n,
            first_descriptor_base(names.deep_view()) == first_descriptor_base(
                names.deep_view().skip(i as int),
            ),
        decreases n - i,
    {
        let name = &names[i];
        if str_ends_with(name.as_str(), ".runtimeconfig.json") {
            let len = name.as_str().unicode_len();
            let suffix_len = ".runtimeconfig.json".unicode_len();
            let base = name.as_str().substring_char(0, len - suffix_len);
            proof {
                let rest = names.deep_view().skip(i as int);
                assert(rest[0] == names.deep_view()[i as int]);
                assert(base@ =~= name@.take(name@.len() - descriptor_suffix().len()));
            }
            return base.to_owned();
        }
        proof {
            let rest = names.deep_view().skip(i as int);
            assert(rest[0] == names.deep_view()[i as int]);
            assert(rest.drop_first() =~= names.deep_view().skip(i as int + 1));
        }
        i = i + 1;
    }
    proof {
        assert(names.deep_view().skip(n as int) =~= Seq::<Seq<char>>::empty());
    }
    display_name.to_owned()
}

} // verus!
