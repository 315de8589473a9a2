use vstd::prelude::*;

use crate::order::{pair_views, sort_pairs, sorted_by_first, with_key};
use crate::text::{push_str, string_of};

verus! {

broadcast use vstd::string::group_string_axioms;

/// The instruction files of a workspace's `.agent` directory: file names and
/// contents, sorted by name.
pub struct AgentContext {
    files: Vec<(String, String)>,
}

/// The parts joined with `sep` between them, as `[..].join(sep)` gives it.
pub open spec fn join(parts: Seq<Seq<char>>, sep: Seq<char>) -> Seq<char>
    decreases parts.len(),
{
    if parts.len() == 0 {
        Seq::empty()
    } else if parts.len() == 1 {
        parts[0]
    } else {
        join(parts.drop_last(), sep) + sep + parts.last()
    }
}

/// One file as it appears in the prompt.
pub open spec fn file_section(file: (Seq<char>, Seq<char>)) -> Seq<char> {
    "# "@ + file.0 + "\n"@ + file.1
}

/// What the files add to the system prompt: nothing when there are none,
/// else a heading and the files, separated by blank lines.
pub open spec fn agent_prompt_text(files: Seq<(Seq<char>, Seq<char>)>) -> Seq<char> {
    if files.len() == 0 {
        Seq::empty()
    } else {
        "\n\n# Agent Context\n\n"@ + join(
            files.map_values(|f: (Seq<char>, Seq<char>)| file_section(f)),
            "\n\n"@,
        )
    }
}

impl AgentContext {
    /// The files, by name and content, in their order.
    pub closed spec fn files(&self) -> Seq<(Seq<char>, Seq<char>)> {
        pair_views(self.files@)
    }

    /// A context of the given `(file name, content)` pairs, sorted by name;
    /// files that share a name keep the order in which they were given.
    pub fn from_files(files: Vec<(String, String)>) -> (ctx: Self)
        ensures
            ctx.files().to_multiset() == pair_views(files@).to_multiset(),
            sorted_by_first(ctx.files()),
            forall|k: Seq<char>| #[trigger] with_key(ctx.files(), k) == with_key(pair_views(files@), k),
    {
        AgentContext { files: sort_pairs(files) }
    }

    /// The number of files.
    pub fn file_count(&self) -> (n: usize)
        ensures
            n == self.files().len(),
    {
        self.files.len()
    }

    /// What the files add to the system prompt.
    pub fn to_system_prompt(&self) -> (s: String)
        ensures
            s@ == agent_prompt_text(self.files()),
    {
        if self.files.len() == 0 {
            return String::new();
        }
        let ghost sections = self.files().map_values(
            |f: (Seq<char>, Seq<char>)| file_section(f),
        );
        let mut v: Vec<char> = Vec::new();
        push_str(&mut v, "\n\n# Agent Context\n\n");
        let ghost head = v@;
        let mut i: usize = 0;
        while i < self.files.len()
            invariant
                i <= self.files.len(),
                self.files.len() > 0,
                sections == self.files().map_values(|f: (Seq<char>, Seq<char>)| file_section(f)),
                v@ == head + join(sections.take(i as int), "\n\n"@),
            decreases self.files.len() - i,
        {
            let ghost before = v@;
            if i > 0 {
                push_str(&mut v, "\n\n");
            }
            push_str(&mut v, "# ");
            push_str(&mut v, self.files[i].0.as_str());
            push_str(&mut v, "\n");
            push_str(&mut v, self.files[i].1.as_str());
            proof {
                let t = sections.take(i + 1);
                assert(t.drop_last() =~= sections.take(i as int));
                assert(t.last() == file_section(self.files()[i as int]));
                if i == 0 {
                    assert(sections.take(0) =~= Seq::<Seq<char>>::empty());
                    assert(v@ =~= head + join(t, "\n\n"@));
                } else {
                    assert(v@ =~= head + join(t, "\n\n"@));
                }
            }
            i = i + 1;
        }
        assert(sections.take(self.files.len() as int) =~= sections);
        string_of(v.as_slice())
    }

    /// Whether there is at least one file.
    pub fn has_content(&self) -> (b: bool)
        ensures
            b == (self.files().len() > 0),
    {
        !self.files.is_empty()
    }
}

} // verus!

verus! {

/// The prompt depends only on which files there are, not on the order in
/// which the directory listed them: two contexts made from the same files
/// give the same prompt, as long as files that share a name are the same
/// file.
pub proof fn lemma_prompt_ignores_listing_order(
    found1: Seq<(Seq<char>, Seq<char>)>,
    found2: Seq<(Seq<char>, Seq<char>)>,
    ctx1: AgentContext,
    ctx2: AgentContext,
)
    requires
        found1.to_multiset() == found2.to_multiset(),
        crate::order::same_key_same_entry(found1),
        ctx1.files().to_multiset() == found1.to_multiset(),
        sorted_by_first(ctx1.files()),
        ctx2.files().to_multiset() == found2.to_multiset(),
        sorted_by_first(ctx2.files()),
    ensures
        ctx1.files() == ctx2.files(),
        agent_prompt_text(ctx1.files()) == agent_prompt_text(ctx2.files()),
{
    broadcast use vstd::seq_lib::group_to_multiset_ensures;

    let a = ctx1.files();
    assert forall|i: int, j: int|
        0 <= i < a.len() && 0 <= j < a.len() && (#[trigger] a[i]).0 == (#[trigger] a[j]).0
        implies a[i] == a[j] by {
        assert(a.to_multiset().count(a[i]) > 0);
        assert(a.to_multiset().count(a[j]) > 0);
        assert(found1.contains(a[i]));
        assert(found1.contains(a[j]));
        let p = choose|k: int| 0 <= k < found1.len() && found1[k] == a[i];
        let q = choose|k: int| 0 <= k < found1.len() && found1[k] == a[j];
        assert(found1[p].0 == found1[q].0);
    }
    crate::order::lemma_sorted_pairs_unique(a, ctx2.files());
}

} // verus!
