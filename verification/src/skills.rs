//! Bundled skill assets: which skills the asset paths offer and which
//! asset belongs to a selected skill.
//!
//! An asset path names its skill in the segment before the first `/`.  The
//! available skills are the distinct such names, listed in ascending
//! lexicographic order.

use vstd::prelude::*;

verus! {

use vstd::string::*;
use crate::text::{
    first_index_of,
    find_char,
    lemma_first_index_of,
    str_eq,
    str_le,
    str_views,
    lex_le,
    lemma_lex_le_total,
    lemma_lex_le_antisym,
    lemma_lex_le_trans,
};

/// The skill an asset path belongs to: the segment before the first `/`,
/// when the path has one.
pub open spec fn skill_prefix(path: Seq<char>) -> Option<Seq<char>> {
    let i = first_index_of(path, '/');
    if i == -1 {
        None
    } else {
        Some(path.subrange(0, i))
    }
}

/// Name of the skill an asset path belongs to, if any.
pub fn skill_name_of_path(path: &str) -> (r: Option<String>)
    ensures
        crate::resolver::opt_str_view(r) == skill_prefix(path@),
{
    match find_char(path, '/') {
        None => None,
        Some(i) => {
            proof {
                lemma_first_index_of(path@, '/');
            }
            Some(String::from_str(path.substring_char(0, i)))
        },
    }
}

/// `s` occurs among the given character sequences.
pub open spec fn in_str_list(ss: Seq<Seq<char>>, s: Seq<char>) -> bool {
    exists|i: int| 0 <= i < ss.len() && ss[i] == s
}

/// Some path in the list belongs to skill `s`.
pub open spec fn skill_in(paths: Seq<Seq<char>>, s: Seq<char>) -> bool {
    exists|j: int| 0 <= j < paths.len() && skill_prefix(#[trigger] paths[j]) == Some(s)
}

/// Is `path` an asset of one of the selected skills?
pub fn should_install(path: &str, selected: &Vec<String>) -> (r: bool)
    ensures
        r == match skill_prefix(path@) {
            Some(s) => in_str_list(str_views(selected@), s),
            None => false,
        },
{
    match skill_name_of_path(path) {
        None => false,
        Some(name) => {
            let n = selected.len();
            for k in 0..n
                invariant
                    n == selected@.len(),
                    Some(name@) == skill_prefix(path@),
                    forall|j: int| 0 <= j < k ==> str_views(selected@)[j] != name@,
            {
                if str_eq(selected[k].as_str(), name.as_str()) {
                    proof {
                        assert(str_views(selected@)[k as int] == name@);
                    }
                    return true;
                }
            }
            false
        },
    }
}

/// Strictly ascending lexicographic order: sorted with no duplicates.
pub open spec fn sorted_distinct(ss: Seq<String>) -> bool {
    forall|i: int, j: int|
        0 <= i < j < ss.len() ==> lex_le(#[trigger] ss[i]@, #[trigger] ss[j]@) && ss[i]@ != ss[j]@
}

/// Inserts `s` into a strictly sorted list, keeping it strictly sorted;
/// a value already present is not duplicated.
fn insert_sorted(out: &mut Vec<String>, s: String)
    requires
        sorted_distinct(old(out)@),
    ensures
        sorted_distinct(final(out)@),
        forall|t: Seq<char>| #[trigger]
            in_str_list(str_views(final(out)@), t) <==> (in_str_list(str_views(old(out)@), t) || t
                == s@),
{
    let n = out.len();
    let mut pos: usize = 0;
    while pos < n && !str_le(s.as_str(), out[pos].as_str())
        invariant
            n == out@.len(),
            sorted_distinct(out@),
            pos <= n,
            forall|j: int| 0 <= j < pos ==> lex_le(#[trigger] out@[j]@, s@) && out@[j]@ != s@,
        decreases n - pos,
    {
        proof {
            lemma_lex_le_total(s@, out@[pos as int]@);
            if out@[pos as int]@ == s@ {
                assert(lex_le(s@, out@[pos as int]@));
            }
        }
        pos = pos + 1;
    }
    if pos < n && str_eq(out[pos].as_str(), s.as_str()) {
        proof {
            assert(str_views(out@)[pos as int] == s@);
            assert forall|t: Seq<char>| #[trigger]
                in_str_list(str_views(out@), t) <==> (in_str_list(str_views(out@), t) || t
                == s@) by {
                if t == s@ {
                    assert(str_views(out@)[pos as int] == t);
                }
            }
        }
        return ;
    }
    proof {
        if pos < n {
            lemma_lex_le_total(s@, out@[pos as int]@);
        }
    }
    let ghost oldv = out@;
    out.insert(pos, s);
    proof {
        assert(out@ == oldv.insert(pos as int, s));
        assert(out@.len() == oldv.len() + 1);
        assert(out@[pos as int]@ == s@);
        assert(forall|j: int| 0 <= j < pos ==> out@[j] == oldv[j]);
        assert(forall|j: int| pos < j < out@.len() ==> out@[j] == oldv[j - 1]);
        assert forall|i: int, j: int| 0 <= i < j < out@.len() implies lex_le(
            #[trigger] out@[i]@,
            #[trigger] out@[j]@,
        ) && out@[i]@ != out@[j]@ by {
            if j < pos {
                assert(lex_le(oldv[i]@, oldv[j]@) && oldv[i]@ != oldv[j]@);
            } else if j == pos {
                assert(lex_le(out@[i]@, s@) && out@[i]@ != s@);
            } else if i < pos {
                assert(lex_le(oldv[i]@, oldv[j - 1]@) && oldv[i]@ != oldv[j - 1]@);
            } else if i == pos {
                assert(pos < n ==> lex_le(s@, oldv[pos as int]@) && s@ != oldv[pos as int]@);
                if j - 1 == pos {
                    assert(lex_le(out@[i]@, out@[j]@) && out@[i]@ != out@[j]@);
                } else {
                    assert(lex_le(oldv[pos as int]@, oldv[j - 1]@) && oldv[pos as int]@ != oldv[j
                        - 1]@);
                    lemma_lex_le_trans(s@, oldv[pos as int]@, oldv[j - 1]@);
                    if s@ == oldv[j - 1]@ {
                        lemma_lex_le_antisym(s@, oldv[pos as int]@);
                    }
                }
            } else {
                assert(lex_le(oldv[i - 1]@, oldv[j - 1]@) && oldv[i - 1]@ != oldv[j - 1]@);
            }
        }
        assert forall|t: Seq<char>| #[trigger]
            in_str_list(str_views(out@), t) <==> (in_str_list(str_views(oldv), t) || t == s@) by {
            if in_str_list(str_views(out@), t) {
                let i = choose|i: int| 0 <= i < str_views(out@).len() && str_views(out@)[i] == t;
                if i == pos {
                    assert(t == s@);
                } else if i < pos {
                    assert(str_views(oldv)[i] == t);
                } else {
                    assert(str_views(oldv)[i - 1] == t);
                }
            }
            if in_str_list(str_views(oldv), t) {
                let i = choose|i: int| 0 <= i < str_views(oldv).len() && str_views(oldv)[i] == t;
                if i < pos {
                    assert(str_views(out@)[i] == t);
                } else {
                    assert(str_views(out@)[i + 1] == t);
                }
            }
            if t == s@ {
                assert(str_views(out@)[pos as int] == t);
            }
        }
    }
}

/// The distinct skill names offered by the bundled asset paths, in
/// ascending lexicographic order: exactly the names that occur as a skill
/// prefix of some path, each once.
pub fn get_available_skills(paths: &Vec<String>) -> (r: Vec<String>)
    ensures
        sorted_distinct(r@),
        forall|t: Seq<char>| #[trigger]
            in_str_list(str_views(r@), t) <==> skill_in(str_views(paths@), t),
{
    let mut out: Vec<String> = Vec::new();
    let n = paths.len();
    proof {
        assert forall|t: Seq<char>| #[trigger]
            in_str_list(str_views(out@), t) <==> skill_in(
            str_views(paths@).take(0),
            t,
        ) by {
            assert(str_views(out@).len() == 0);
            assert(str_views(paths@).take(0).len() == 0);
        }
    }
    for k in 0..n
        invariant
            n == paths@.len(),
            sorted_distinct(out@),
            forall|t: Seq<char>| #[trigger]
                in_str_list(str_views(out@), t) <==> skill_in(str_views(paths@).take(k as int), t),
    {
        let ghost pk = str_views(paths@).take(k as int);
        let ghost pk1 = str_views(paths@).take(k + 1);
        proof {
            assert(pk1.drop_last() =~= pk);
            assert(pk1.last() == paths@[k as int]@);
        }
        match skill_name_of_path(paths[k].as_str()) {
            None => {
                proof {
                    assert forall|t: Seq<char>| #[trigger]
                        in_str_list(str_views(out@), t) <==> skill_in(pk1, t) by {
                        if skill_in(pk1, t) {
                            let j = choose|j: int|
                                0 <= j < pk1.len() && skill_prefix(#[trigger] pk1[j]) == Some(t);
                            if j < k {
                                assert(skill_prefix(pk[j]) == Some(t));
                            }
                        }
                        if skill_in(pk, t) {
                            let j = choose|j: int|
                                0 <= j < pk.len() && skill_prefix(#[trigger] pk[j]) == Some(t);
                            assert(skill_prefix(pk1[j]) == Some(t));
                        }
                    }
                }
            },
            Some(name) => {
                let ghost before = out@;
                insert_sorted(&mut out, name);
                proof {
                    assert forall|t: Seq<char>| #[trigger]
                        in_str_list(str_views(out@), t) <==> skill_in(pk1, t) by {
                        if in_str_list(str_views(out@), t) {
                            if in_str_list(str_views(before), t) {
                                let j = choose|j: int|
                                    0 <= j < pk.len() && skill_prefix(#[trigger] pk[j]) == Some(t);
                                assert(skill_prefix(pk1[j]) == Some(t));
                            } else {
                                assert(skill_prefix(pk1[k as int]) == Some(t));
                            }
                        }
                        if skill_in(pk1, t) {
                            let j = choose|j: int|
                                0 <= j < pk1.len() && skill_prefix(#[trigger] pk1[j]) == Some(t);
                            if j < k {
                                assert(skill_prefix(pk[j]) == Some(t));
                            }
                        }
                    }
                }
            },
        }
    }
    proof {
        assert(str_views(paths@).take(n as int) =~= str_views(paths@));
    }
    out
}

} // verus!
