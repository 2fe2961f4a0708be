//! The orders a listing can be in: `--sort`'s, and the default.

use vstd::prelude::*;

verus! {

/// `--sort`'s orders; `Slug` is what a listing is in when none is asked for.
#[derive(Clone, Copy, PartialEq, Eq, Debug, Structural)]
pub enum Sort {
    Slug,
    Created,
    Updated,
    Title,
}

impl Default for Sort {
    fn default() -> (r: Sort)
        ensures
            r == Sort::Slug,
    {
        Sort::Slug
    }
}

pub open spec fn sort_name(s: Sort) -> Seq<char> {
    match s {
        Sort::Slug => "slug"@,
        Sort::Created => "created"@,
        Sort::Updated => "updated"@,
        Sort::Title => "title"@,
    }
}

/// Every order, the default first, as the chips stand.
pub open spec fn every_sort() -> Seq<Sort> {
    seq![Sort::Slug, Sort::Created, Sort::Updated, Sort::Title]
}

impl Sort {
    /// What `--sort` calls it, and what the address carries.
    pub fn name(self) -> (r: &'static str)
        ensures
            r@ == sort_name(self),
    {
        match self {
            Sort::Slug => "slug",
            Sort::Created => "created",
            Sort::Updated => "updated",
            Sort::Title => "title",
        }
    }

    /// The order `--sort` calls `name`, if any.
    pub fn named(name: &str) -> (r: Option<Sort>)
        ensures
            match r {
                Some(s) => sort_name(s) == name@,
                None => forall|s: Sort| sort_name(s) != name@,
            },
    {
        let v = crate::text::chars_of(name);
        proof {
            reveal_strlit("slug");
            reveal_strlit("created");
            reveal_strlit("updated");
            reveal_strlit("title");
        }
        let mut k: usize = 0;
        let all = Sort::all();
        while k < all.len()
            invariant
                k <= all.len(),
                all@ == every_sort(),
                v@ == name@,
                forall|j: int| 0 <= j < k ==> sort_name(#[trigger] all@[j]) != name@,
            decreases all.len() - k,
        {
            let s = all[k];
            let w = crate::text::chars_of(s.name());
            if crate::text::same(&v, &w) {
                return Some(s);
            }
            k += 1;
        }
        assert forall|s: Sort| sort_name(s) != name@ by {
            match s {
                Sort::Slug => assert(sort_name(all@[0]) != name@),
                Sort::Created => assert(sort_name(all@[1]) != name@),
                Sort::Updated => assert(sort_name(all@[2]) != name@),
                Sort::Title => assert(sort_name(all@[3]) != name@),
            }
        }
        None
    }

    /// Every order, the default first.
    pub fn all() -> (r: Vec<Sort>)
        ensures
            r@ == every_sort(),
    {
        let r = vec![Sort::Slug, Sort::Created, Sort::Updated, Sort::Title];
        assert(r@ =~= every_sort());
        r
    }
}


/// No two orders share a name, so each is found again by its own.
pub proof fn an_order_is_found_by_its_name(a: Sort, b: Sort)
    requires
        sort_name(a) == sort_name(b),
    ensures
        a == b,
{
    reveal_strlit("slug");
    reveal_strlit("created");
    reveal_strlit("updated");
    reveal_strlit("title");
    if a != b {
        let (x, y) = (sort_name(a), sort_name(b));
        assert(x.len() != y.len() || x[0] != y[0]) by {
            match a {
                Sort::Slug => assert(x[0] == 's'),
                Sort::Created => assert(x[0] == 'c'),
                Sort::Updated => assert(x[0] == 'u'),
                Sort::Title => assert(x[0] == 't'),
            }
            match b {
                Sort::Slug => assert(y[0] == 's'),
                Sort::Created => assert(y[0] == 'c'),
                Sort::Updated => assert(y[0] == 'u'),
                Sort::Title => assert(y[0] == 't'),
            }
        }
    }
}

} // verus!
