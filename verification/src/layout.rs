use vstd::prelude::*;

use std::collections::HashMap;
use vstd::string::StringSliceAdditionalSpecFns;

use crate::text::{decimal, push_decimal, push_str, string_of};
use crate::workspace::Workspace;

verus! {

broadcast use {
    vstd::string::group_string_axioms,
    vstd::std_specs::hash::group_hash_axioms,
    vstd::std_specs::hash::axiom_spec_hash_map_len,
};

/// What a workspace holds.
pub struct WorkspaceView {
    pub name: Seq<char>,
    pub working_directory: Option<Seq<char>>,
    pub git_branch: Option<Seq<char>>,
}

impl View for Workspace {
    type V = WorkspaceView;

    open spec fn view(&self) -> WorkspaceView {
        WorkspaceView {
            name: self.name@,
            working_directory: crate::chat::opt_view(self.working_directory),
            git_branch: crate::chat::opt_view(self.git_branch),
        }
    }
}

/// What a tab shows: a terminal talking to the model, or a browser pane.
#[derive(Clone, Copy, Debug, PartialEq, Eq, Structural, Hash)]
pub enum PaneType {
    Terminal,
    Browser,
}

/// `prefix` followed by a space and the decimal number `n`, as tabs and
/// workspaces are titled.
pub open spec fn numbered_title(prefix: Seq<char>, n: nat) -> Seq<char> {
    prefix + " "@ + decimal(n)
}

/// `prefix n`: the title of the `n`-th workspace, terminal or browser.
pub fn numbered(prefix: &str, n: usize) -> (s: String)
    ensures
        s@ == numbered_title(prefix@, n as nat),
{
    let mut v: Vec<char> = Vec::new();
    push_str(&mut v, prefix);
    push_str(&mut v, " ");
    push_decimal(&mut v, n as u64);
    string_of(v.as_slice())
}

/// The workspaces of the window: by id, in the order they were made, and the
/// one shown.
pub struct Workspaces {
    workspaces: HashMap<u128, Workspace>,
    order: Vec<u128>,
    current: Option<u128>,
}

/// What the workspaces hold.
pub struct WorkspacesView {
    pub workspaces: Map<u128, WorkspaceView>,
    pub order: Seq<u128>,
    pub current: Option<u128>,
}

impl View for Workspaces {
    type V = WorkspacesView;

    closed spec fn view(&self) -> WorkspacesView {
        WorkspacesView {
            workspaces: self.workspaces@.map_values(|w: Workspace| w@),
            order: self.order@,
            current: self.current,
        }
    }
}

/// A fresh workspace of the given name.
pub open spec fn fresh_workspace(name: Seq<char>) -> WorkspaceView {
    WorkspaceView { name, working_directory: None, git_branch: None }
}

impl Workspaces {
    /// One workspace, `Workspace 1`, under `id`, shown.
    pub fn new(id: u128) -> (w: Self)
        ensures
            w@.workspaces == Map::<u128, WorkspaceView>::empty().insert(
                id,
                fresh_workspace(numbered_title("Workspace"@, 1)),
            ),
            w@.order == seq![id],
            w@.current == Some(id),
    {
        let mut w = Workspaces { workspaces: HashMap::new(), order: Vec::new(), current: None };
        assert(w@.workspaces =~= Map::<u128, WorkspaceView>::empty());
        assert(w@.order =~= Seq::<u128>::empty());
        w.add_workspace(id);
        assert(w@.workspaces =~= Map::<u128, WorkspaceView>::empty().insert(
            id,
            fresh_workspace(numbered_title("Workspace"@, 1)),
        ));
        assert(w@.order =~= seq![id]);
        w
    }

    /// Adds a workspace under `id`, named after how many there are, at the end
    /// of the order, and shows it.
    pub fn add_workspace(&mut self, id: u128)
        requires
            old(self)@.workspaces.dom().len() < usize::MAX,
        ensures
            final(self)@.workspaces == old(self)@.workspaces.insert(
                id,
                fresh_workspace(numbered_title("Workspace"@, old(self)@.workspaces.dom().len() + 1)),
            ),
            final(self)@.order == old(self)@.order.push(id),
            final(self)@.current == Some(id),
    {
        assert(self@.workspaces.dom() =~= self.workspaces@.dom());
        let n = self.workspaces.len() + 1;
        let name = numbered("Workspace", n);
        let ghost before = self.workspaces@;
        let ghost nm = name@;
        self.workspaces.insert(id, Workspace::new(name));
        assert(self.workspaces@.map_values(|w: Workspace| w@) =~= before.map_values(
            |w: Workspace| w@,
        ).insert(id, fresh_workspace(nm)));
        self.order.push(id);
        self.current = Some(id);
    }

    /// Shows the workspace `id` if there is one; otherwise nothing changes.
    pub fn select_workspace(&mut self, id: u128)
        ensures
            old(self)@.workspaces.contains_key(id) ==> final(self)@ == (WorkspacesView {
                current: Some(id),
                ..old(self)@
            }),
            !old(self)@.workspaces.contains_key(id) ==> final(self)@ == old(self)@,
    {
        if self.workspaces.contains_key(&id) {
            self.current = Some(id);
        }
    }

    /// The workspace shown.
    pub fn current(&self) -> (c: Option<u128>)
        ensures
            c == self@.current,
    {
        self.current
    }

    /// The workspace ids in the order they were made.
    pub fn order(&self) -> (o: &Vec<u128>)
        ensures
            o@ == self@.order,
    {
        &self.order
    }

    /// The number of workspaces.
    pub fn len(&self) -> (n: usize)
        ensures
            n == self@.workspaces.dom().len(),
    {
        assert(self@.workspaces.dom() =~= self.workspaces@.dom());
        self.workspaces.len()
    }

    /// The workspace `id`, if there is one.
    pub fn get(&self, id: u128) -> (w: Option<&Workspace>)
        ensures
            match w {
                Some(x) => self@.workspaces.contains_key(id) && self@.workspaces[id] == x@,
                None => !self@.workspaces.contains_key(id),
            },
    {
        self.workspaces.get(&id)
    }

    /// Records the directory that workspace `id` works in, if there is one.
    pub fn update_from_cwd(&mut self, id: u128, cwd: &str)
        ensures
            old(self)@.workspaces.contains_key(id) ==> final(self)@ == (WorkspacesView {
                workspaces: old(self)@.workspaces.insert(
                    id,
                    WorkspaceView {
                        working_directory: Some(cwd@),
                        ..old(self)@.workspaces[id]
                    },
                ),
                ..old(self)@
            }),
            !old(self)@.workspaces.contains_key(id) ==> final(self)@ == old(self)@,
    {
        let ghost before = self.workspaces@;
        match self.workspaces.remove(&id) {
            Some(mut w) => {
                w.update_from_cwd(cwd);
                self.workspaces.insert(id, w);
                assert(self.workspaces@.map_values(|w: Workspace| w@) =~= before.map_values(
                    |w: Workspace| w@,
                ).insert(
                    id,
                    WorkspaceView {
                        working_directory: Some(cwd@),
                        ..before.map_values(|w: Workspace| w@)[id]
                    },
                ));
            },
            None => {
                assert(self.workspaces@ == before);
            },
        }
    }

    /// Records the git branch of workspace `id`, if there is one.
    pub fn set_git_branch(&mut self, id: u128, branch: &str)
        ensures
            old(self)@.workspaces.contains_key(id) ==> final(self)@ == (WorkspacesView {
                workspaces: old(self)@.workspaces.insert(
                    id,
                    WorkspaceView { git_branch: Some(branch@), ..old(self)@.workspaces[id] },
                ),
                ..old(self)@
            }),
            !old(self)@.workspaces.contains_key(id) ==> final(self)@ == old(self)@,
    {
        let ghost before = self.workspaces@;
        match self.workspaces.remove(&id) {
            Some(mut w) => {
                w.set_git_branch(branch);
                self.workspaces.insert(id, w);
                assert(self.workspaces@.map_values(|w: Workspace| w@) =~= before.map_values(
                    |w: Workspace| w@,
                ).insert(
                    id,
                    WorkspaceView {
                        git_branch: Some(branch@),
                        ..before.map_values(|w: Workspace| w@)[id]
                    },
                ));
            },
            None => {
                assert(self.workspaces@ == before);
            },
        }
    }
}

/// How the side bar shows a long working directory: when it is longer than
/// 30 bytes, `...` and its last 27 bytes; otherwise the whole of it.
pub fn truncate_cwd(cwd: &str) -> (s: String)
    requires
        cwd.spec_bytes().len() <= usize::MAX,
        cwd.spec_bytes().len() <= 30 || vstd::utf8::is_char_boundary(
            cwd.spec_bytes(),
            cwd.spec_bytes().len() - 27,
        ),
    ensures
        cwd.spec_bytes().len() <= 30 ==> s@ == cwd@,
        cwd.spec_bytes().len() > 30 ==> s@.take(3) == "..."@ && vstd::utf8::encode_utf8(
            s@.skip(3),
        ) == cwd.spec_bytes().subrange(
            cwd.spec_bytes().len() - 27,
            cwd.spec_bytes().len() as int,
        ),
{
    let n = cwd.len();
    if n <= 30 {
        return cwd.to_string();
    }
    let (_, tail) = cwd.split_at(n - 27);
    assert(tail.spec_bytes() =~= cwd.spec_bytes().subrange(
        cwd.spec_bytes().len() - 27,
        cwd.spec_bytes().len() as int,
    ));
    let mut v: Vec<char> = Vec::new();
    push_str(&mut v, "...");
    push_str(&mut v, tail);
    proof {
        reveal_strlit("...");
        assert(v@.take(3) =~= "..."@);
        assert(v@.skip(3) =~= tail@);
    }
    string_of(v.as_slice())
}

/// The tool names the side bar lists: at most the first ten, and a note of
/// how many more there are, if any.
pub fn tool_list_summary(names: &Vec<String>) -> (r: (Vec<String>, Option<String>))
    ensures
        names@.len() <= 10 ==> crate::order::str_views(r.0@) == crate::order::str_views(names@),
        names@.len() > 10 ==> crate::order::str_views(r.0@) == crate::order::str_views(
            names@.take(10),
        ),
        names@.len() <= 10 ==> r.1 is None,
        names@.len() > 10 ==> (r.1 matches Some(m) && m@ == "+"@ + decimal(
            (names@.len() - 10) as nat,
        ) + " more"@),
{
    let k: usize = if names.len() <= 10 {
        names.len()
    } else {
        10
    };
    let mut shown: Vec<String> = Vec::new();
    let mut i: usize = 0;
    while i < k
        invariant
            k <= names.len(),
            i <= k,
            shown.len() == i,
            crate::order::str_views(shown@) == crate::order::str_views(names@.take(i as int)),
        decreases k - i,
    {
        let ghost prev = shown@;
        shown.push(names[i].clone());
        assert(shown@ =~= prev.push(shown@[i as int]));
        assert(names@.take(i + 1) =~= names@.take(i as int).push(names@[i as int]));
        assert(crate::order::str_views(shown@) =~= crate::order::str_views(prev).push(
            names@[i as int]@,
        ));
        assert(crate::order::str_views(shown@) =~= crate::order::str_views(names@.take(i + 1)));
        i = i + 1;
    }
    assert(names@.len() <= 10 ==> names@.take(k as int) =~= names@);
    if names.len() > 10 {
        let mut v: Vec<char> = Vec::new();
        push_str(&mut v, "+");
        push_decimal(&mut v, (names.len() - 10) as u64);
        push_str(&mut v, " more");
        (shown, Some(string_of(v.as_slice())))
    } else {
        (shown, None)
    }
}

} // verus!

verus! {

/// The order lists exactly the known workspaces, and the one shown, if any,
/// is known.
pub open spec fn workspaces_consistent(v: WorkspacesView) -> bool {
    &&& v.order.to_set() == v.workspaces.dom()
    &&& v.current matches Some(c) ==> v.workspaces.contains_key(c)
}

/// A fresh set of workspaces is consistent.
pub proof fn lemma_new_workspaces_consistent(id: u128, v: WorkspacesView)
    requires
        v.workspaces == Map::<u128, WorkspaceView>::empty().insert(
            id,
            fresh_workspace(numbered_title("Workspace"@, 1)),
        ),
        v.order == seq![id],
        v.current == Some(id),
    ensures
        workspaces_consistent(v),
{
    let e = Seq::<u128>::empty();
    assert(seq![id] =~= e.push(id));
    e.lemma_push_to_set_commute(id);
    assert(e.to_set() =~= Set::<u128>::empty());
    assert(v.order.to_set() =~= set![id]);
    assert(v.workspaces.dom() =~= set![id]);
}

/// Adding a workspace keeps the workspaces consistent.
pub proof fn lemma_add_keeps_workspaces_consistent(
    before: WorkspacesView,
    after: WorkspacesView,
    id: u128,
    w: WorkspaceView,
)
    requires
        workspaces_consistent(before),
        after.workspaces == before.workspaces.insert(id, w),
        after.order == before.order.push(id),
        after.current == Some(id),
    ensures
        workspaces_consistent(after),
{
    before.order.lemma_push_to_set_commute(id);
    assert(after.workspaces.dom() =~= before.workspaces.dom().insert(id));
}

/// Selecting, or recording a directory or a branch, keeps the workspaces
/// consistent: it changes no id and shows only a known workspace.
pub proof fn lemma_select_and_update_keep_workspaces_consistent(
    before: WorkspacesView,
    after: WorkspacesView,
)
    requires
        workspaces_consistent(before),
        after.workspaces.dom() == before.workspaces.dom(),
        after.order == before.order,
        after.current == before.current || (after.current matches Some(c)
            && before.workspaces.contains_key(c)),
    ensures
        workspaces_consistent(after),
{
}

} // verus!
