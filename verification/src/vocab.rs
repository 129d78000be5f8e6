//! The completion vocabulary: the fixed query keywords together with every
//! normalized column name of every loaded file, in file order, duplicates
//! preserved.

use vstd::prelude::*;
use vstd::string::*;

verus! {

/// The fixed query keywords recognized for completion.
pub open spec fn keywords_spec() -> Seq<Seq<char>> {
    seq![
        "distinct"@,
        "select"@,
        "from"@,
        "group"@,
        "by"@,
        "order"@,
        "where"@,
        "count"@,
    ]
}

/// The fixed query keywords, as strings.
pub fn keywords() -> (r: Vec<String>)
    ensures
        r.deep_view() == keywords_spec(),
{
    let mut r: Vec<String> = Vec::new();
    r.push(String::from_str("distinct"));
    r.push(String::from_str("select"));
    r.push(String::from_str("from"));
    r.push(String::from_str("group"));
    r.push(String::from_str("by"));
    r.push(String::from_str("order"));
    r.push(String::from_str("where"));
    r.push(String::from_str("count"));
    proof {
        assert(r.deep_view() =~= keywords_spec());
    }
    r
}

/// The column lists of all files, concatenated in file order, from file `i`
/// on.
pub open spec fn concat_from(files: Seq<Seq<Seq<char>>>, i: int) -> Seq<Seq<char>>
    decreases files.len() - i,
{
    if i < 0 || i >= files.len() {
        Seq::empty()
    } else {
        files[i] + concat_from(files, i + 1)
    }
}

/// The whole completion vocabulary: `base` followed by every file's column
/// names, in file order, duplicates preserved.
pub open spec fn vocab_spec(base: Seq<Seq<char>>, files: Seq<Seq<Seq<char>>>) -> Seq<Seq<char>> {
    base + concat_from(files, 0)
}

/// Builds the completion vocabulary from the base keywords and the
/// per-file column lists.
pub fn build_vocabulary(base: Vec<String>, files: &Vec<Vec<String>>) -> (r: Vec<String>)
    ensures
        r.deep_view() == vocab_spec(base.deep_view(), files.deep_view()),
{
    let ghost bv = base.deep_view();
    let ghost fv = files.deep_view();
    let mut r = base;
    let mut i: usize = 0;
    while i < files.len()
        invariant
            i <= files@.len(),
            fv == files.deep_view(),
            r.deep_view() + concat_from(fv, i as int) == bv + concat_from(fv, 0),
        decreases files@.len() - i,
    {
        let cols = &files[i];
        proof {
            assert(fv[i as int] == files@[i as int].deep_view());
        }
        let mut j: usize = 0;
        while j < cols.len()
            invariant
                i < files@.len(),
                j <= cols@.len(),
                fv == files.deep_view(),
                cols == files@[i as int],
                fv[i as int] == cols.deep_view(),
                r.deep_view() + cols.deep_view().skip(j as int) + concat_from(fv, i + 1)
                    == bv + concat_from(fv, 0),
            decreases cols@.len() - j,
        {
            r.push(cols[j].clone());
            j = j + 1;
            proof {
                assert(cols.deep_view().skip(j - 1)
                    =~= seq![cols.deep_view()[j - 1]] + cols.deep_view().skip(j as int));
                assert(r.deep_view() + cols.deep_view().skip(j as int) + concat_from(fv, i + 1)
                    =~= bv + concat_from(fv, 0));
            }
        }
        i = i + 1;
        proof {
            assert(cols.deep_view().skip(cols@.len() as int) =~= Seq::<Seq<char>>::empty());
            assert(r.deep_view() + concat_from(fv, i as int) =~= bv + concat_from(fv, 0));
        }
    }
    proof {
        assert(concat_from(fv, i as int) =~= Seq::<Seq<char>>::empty());
        assert(r.deep_view() =~= vocab_spec(bv, fv));
    }
    r
}

} // verus!
