//! The tidy engine's pure core: per-filename classification against the
//! routing table and the filters, and the move plan for a whole directory
//! listing. The embedding program executes the plan with filesystem calls.

use vstd::prelude::*;
use vstd::string::StringExecFns;

use crate::config::Config;
use crate::extension::ext_spec;
use crate::routing::Category;
use crate::routing::route_spec;

verus! {

/// Move-eligibility: a filename is moved exactly when its extension is
/// non-empty, the routing table maps it, the allow-list is empty or holds it,
/// and the deny-list does not hold it.
pub open spec fn eligible_spec(
    name: Seq<char>,
    relevant: Seq<Seq<char>>,
    ignored: Seq<Seq<char>>,
) -> bool {
    let ext = ext_spec(name);
    &&& ext.len() > 0
    &&& route_spec(ext) is Some
    &&& (relevant.len() == 0 || relevant.contains(ext))
    &&& !ignored.contains(ext)
}

/// The classification outcome for one filename: the destination category when
/// the file is to be moved, `None` when it is skipped.
pub open spec fn classify_spec(
    name: Seq<char>,
    relevant: Seq<Seq<char>>,
    ignored: Seq<Seq<char>>,
) -> Option<Category> {
    if eligible_spec(name, relevant, ignored) {
        route_spec(ext_spec(name))
    } else {
        None
    }
}

/// Classifies one filename under `config`: the category to move it into,
/// or `None` when the file is to be left in place.
pub fn classify(name: &str, config: &Config) -> (r: Option<Category>)
    ensures
        r == classify_spec(name@, config.relevant_exts(), config.ignored_exts()),
{
    let ext = crate::extension::extension_of(name);
    if ext.len() == 0 {
        return None;
    }
    match crate::routing::route(&ext) {
        None => None,
        Some(c) => {
            if config.relevant.len() > 0 && !crate::config::list_has_ext(&config.relevant, &ext) {
                None
            } else if crate::config::list_has_ext(&config.ignored, &ext) {
                None
            } else {
                Some(c)
            }
        },
    }
}

/// One planned relocation: the original filename, case preserved, and the
/// category folder it goes into.
pub struct MovePlan {
    pub name: String,
    pub category: Category,
}

/// A planned move as a pair of its mathematical parts.
pub open spec fn move_view(m: MovePlan) -> (Seq<char>, Category) {
    (m.name@, m.category)
}

/// The move plan for a directory listing: the eligible names, in listing
/// order, each paired with its destination category.
pub open spec fn plan_spec(
    names: Seq<Seq<char>>,
    relevant: Seq<Seq<char>>,
    ignored: Seq<Seq<char>>,
) -> Seq<(Seq<char>, Category)>
    decreases names.len(),
{
    if names.len() == 0 {
        Seq::<(Seq<char>, Category)>::empty()
    } else {
        let rest = plan_spec(names.drop_last(), relevant, ignored);
        match classify_spec(names.last(), relevant, ignored) {
            Some(c) => rest.push((names.last(), c)),
            None => rest,
        }
    }
}

/// Computes the move plan for the filenames of one directory listing.
pub fn plan_moves(names: &Vec<String>, config: &Config) -> (plan: Vec<MovePlan>)
    ensures
        plan@.map_values(|m: MovePlan| move_view(m)) == plan_spec(
            names@.map_values(|s: String| s@),
            config.relevant_exts(),
            config.ignored_exts(),
        ),
{
    let ghost all = names@.map_values(|s: String| s@);
    let ghost rel = config.relevant_exts();
    let ghost ign = config.ignored_exts();
    let mut plan: Vec<MovePlan> = Vec::new();
    let mut i: usize = 0;
    while i < names.len()
        invariant
            all == names@.map_values(|s: String| s@),
            rel == config.relevant_exts(),
            ign == config.ignored_exts(),
            i <= names@.len(),
            plan@.map_values(|m: MovePlan| move_view(m)) == plan_spec(all.take(i as int), rel, ign),
        decreases names@.len() - i,
    {
        let ghost prefix = all.take(i as int);
        let ghost longer = all.take(i + 1);
        proof {
            assert(longer.drop_last() =~= prefix);
            assert(longer.last() == all[i as int]);
        }
        match classify(names[i].as_str(), config) {
            Some(c) => {
                let m = MovePlan { name: names[i].clone(), category: c };
                plan.push(m);
                proof {
                    assert(plan@.map_values(|m: MovePlan| move_view(m)) =~= plan_spec(
                        longer,
                        rel,
                        ign,
                    ));
                }
            },
            None => {},
        }
        i += 1;
    }
    proof {
        assert(all.take(names@.len() as int) =~= all);
    }
    plan
}

/// Exclusion wins: a filename whose extension stands in the deny-list is
/// never moved, whatever the routing table and the allow-list say of it.
pub proof fn lemma_ignored_wins(name: Seq<char>, relevant: Seq<Seq<char>>, ignored: Seq<Seq<char>>)
    requires
        ignored.contains(ext_spec(name)),
    ensures
        classify_spec(name, relevant, ignored) is None,
{
}

/// The order in which filter extensions were supplied carries no semantic
/// weight: two filter lists holding the same sets of extensions classify
/// every filename alike.
pub proof fn lemma_filter_order_irrelevant(
    name: Seq<char>,
    relevant_a: Seq<Seq<char>>,
    ignored_a: Seq<Seq<char>>,
    relevant_b: Seq<Seq<char>>,
    ignored_b: Seq<Seq<char>>,
)
    requires
        relevant_a.to_set() == relevant_b.to_set(),
        ignored_a.to_set() == ignored_b.to_set(),
    ensures
        classify_spec(name, relevant_a, ignored_a) == classify_spec(name, relevant_b, ignored_b),
{
    let ext = ext_spec(name);
    assert(relevant_a.contains(ext) == relevant_b.contains(ext)) by {
        assert(relevant_a.contains(ext) == relevant_a.to_set().contains(ext));
        assert(relevant_b.contains(ext) == relevant_b.to_set().contains(ext));
    }
    assert(ignored_a.contains(ext) == ignored_b.contains(ext)) by {
        assert(ignored_a.contains(ext) == ignored_a.to_set().contains(ext));
        assert(ignored_b.contains(ext) == ignored_b.to_set().contains(ext));
    }
    assert((relevant_a.len() == 0) == (relevant_b.len() == 0)) by {
        lemma_len_zero_iff_empty_set(relevant_a);
        lemma_len_zero_iff_empty_set(relevant_b);
    }
}

/// A sequence is empty exactly when the set of its elements is.
proof fn lemma_len_zero_iff_empty_set(s: Seq<Seq<char>>)
    ensures
        (s.len() == 0) == (s.to_set() =~= Set::<Seq<char>>::empty()),
{
    if s.len() > 0 {
        assert(s.to_set().contains(s[0]));
    }
}

/// The plan touches nothing outside the listing it was given: every planned
/// move names one of the listed entries, and an entry is planned exactly when
/// it is eligible. Subdirectory contents are never part of the listing, so
/// they are never planned.
pub proof fn lemma_plan_sources(
    names: Seq<Seq<char>>,
    relevant: Seq<Seq<char>>,
    ignored: Seq<Seq<char>>,
)
    ensures
        forall|k: int|
            0 <= k < plan_spec(names, relevant, ignored).len() ==> names.contains(
                #[trigger] plan_spec(names, relevant, ignored)[k].0,
            ),
        forall|n: Seq<char>|
            names.contains(n) && eligible_spec(n, relevant, ignored) ==> exists|k: int|
                0 <= k < plan_spec(names, relevant, ignored).len() && #[trigger] plan_spec(
                    names,
                    relevant,
                    ignored,
                )[k].0 == n,
    decreases names.len(),
{
    if names.len() > 0 {
        lemma_plan_sources(names.drop_last(), relevant, ignored);
        let shorter = names.drop_last();
        let plan = plan_spec(names, relevant, ignored);
        let rest = plan_spec(shorter, relevant, ignored);
        assert forall|k: int| 0 <= k < plan.len() implies names.contains(#[trigger] plan[k].0) by {
            if k < rest.len() {
                assert(shorter.contains(rest[k].0));
                let j = choose|j: int| 0 <= j < shorter.len() && shorter[j] == rest[k].0;
                assert(names[j] == rest[k].0);
            } else {
                assert(plan[k].0 == names.last());
                assert(names[names.len() - 1] == names.last());
            }
        }
        assert forall|n: Seq<char>|
            names.contains(n) && eligible_spec(n, relevant, ignored) implies exists|k: int|
            0 <= k < plan.len() && #[trigger] plan[k].0 == n by {
            let j = choose|j: int| 0 <= j < names.len() && names[j] == n;
            if j < names.len() - 1 {
                assert(shorter[j] == n);
                assert(shorter.contains(n));
                let k = choose|k: int| 0 <= k < rest.len() && rest[k].0 == n;
                assert(plan[k].0 == n);
            } else {
                assert(names.last() == n);
                assert(plan[plan.len() - 1].0 == n);
            }
        }
    }
}

/// Joins a directory path and an entry name with the path separator.
pub fn join_path(dir: &str, name: &str) -> (r: String)
    ensures
        r@ == dir@ + "/"@ + name@,
{
    let r = String::from_str(dir).concat("/").concat(name);
    proof {
        assert(r@ =~= dir@ + "/"@ + name@);
    }
    r
}

/// The full destination path of a planned move: the target directory, the
/// category folder, and the original filename, separated by `/`.
pub fn dest_path(dir: &str, category: Category, name: &str) -> (r: String)
    ensures
        r@ == dir@ + "/"@ + category.folder_spec() + "/"@ + name@,
{
    let folder = category.folder();
    let r = String::from_str(dir).concat("/").concat(folder).concat("/").concat(name);
    proof {
        assert(r@ =~= dir@ + "/"@ + category.folder_spec() + "/"@ + name@);
    }
    r
}

} // verus!
