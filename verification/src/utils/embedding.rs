use vstd::prelude::*;

verus! {

/// How embeddings are generated: the model asked for, and optionally how
/// many dimensions each embedding is narrowed to.
#[derive(Debug, Clone)]
pub struct EmbeddingOptions {
    pub model: String,
    pub dimensions: Option<usize>,
}

impl Default for EmbeddingOptions {
    /// The widely available embedding model, with its native width.
    fn default() -> (r: Self)
        ensures
            r.model@ == "text-embedding-ada-002"@,
            r.dimensions is None,
    {
        EmbeddingOptions { model: "text-embedding-ada-002".to_owned(), dimensions: None }
    }
}

/// The texts of a sequence of groups, in order.
pub open spec fn concat_groups(groups: Seq<Vec<String>>) -> Seq<String>
    decreases groups.len(),
{
    if groups.len() <= 0 {
        Seq::empty()
    } else {
        concat_groups(groups.drop_last()) + groups.last()@
    }
}

/// Cuts the texts into groups of `group_size`, in order: every group but
/// the last is full, and none is empty. An embedding request is sent per
/// group.
pub fn batch_texts(texts: &Vec<String>, group_size: usize) -> (r: Vec<Vec<String>>)
    requires
        group_size > 0,
    ensures
        concat_groups(r@) == texts@,
        forall|i: int| 0 <= i < r@.len() ==> 0 < #[trigger] r@[i]@.len() <= group_size,
        forall|i: int| 0 <= i < r@.len() - 1 ==> #[trigger] r@[i]@.len() == group_size,
{
    let mut groups: Vec<Vec<String>> = Vec::new();
    let mut cur: Vec<String> = Vec::new();
    let mut i: usize = 0;
    while i < texts.len()
        invariant
            i <= texts@.len(),
            group_size > 0,
            cur@.len() < group_size,
            concat_groups(groups@) + cur@ == texts@.subrange(0, i as int),
            forall|k: int| 0 <= k < groups@.len() ==> #[trigger] groups@[k]@.len()
                == group_size,
        decreases texts@.len() - i,
    {
        let ghost old_groups = groups@;
        let ghost old_cur = cur@;
        cur.push(texts[i].clone());
        proof {
            assert(texts@.subrange(0, i + 1) =~= texts@.subrange(0, i as int).push(
                texts@[i as int],
            ));
            assert(concat_groups(groups@) + cur@ =~= (concat_groups(groups@) + old_cur).push(
                cur@.last(),
            ));
        }
        if cur.len() == group_size {
            let full = cur;
            cur = Vec::new();
            groups.push(full);
            proof {
                assert(groups@.drop_last() =~= old_groups);
                assert(concat_groups(groups@) + cur@ =~= concat_groups(groups@));
            }
        }
        i = i + 1;
    }
    proof {
        assert(texts@.subrange(0, texts@.len() as int) =~= texts@);
    }
    if cur.len() > 0 {
        let ghost old_groups = groups@;
        groups.push(cur);
        proof {
            assert(groups@.drop_last() =~= old_groups);
        }
    } else {
        proof {
            assert(concat_groups(groups@) + cur@ =~= concat_groups(groups@));
        }
    }
    groups
}

} // verus!
