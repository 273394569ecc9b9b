//! Planning the directories and files of a new module from the layout.

use vstd::prelude::*;

use crate::config::{ChildMap, LayoutNode};
use crate::text::{begins_with, is_prefix, starts_with_char, to_owned_string};

verus! {

/// What to scaffold.
pub enum ScaffoldType {
    /// A module `name` under `base_path`.
    Module { name: String, base_path: String },
}

/// The arguments of the `scaffold` command.
pub struct ScaffoldArgs {
    pub scaffold_type: ScaffoldType,
    pub dry_run: bool,
}

/// The `scaffold` command.
pub struct ScaffoldCommand;

/// One step of a plan: `mkdir` or `touch` at a path.
#[derive(Debug)]
pub struct ScaffoldAction {
    pub action: String,
    pub path: String,
}

/// The steps that create a module.
#[derive(Debug)]
pub struct ScaffoldPlan {
    pub actions: Vec<ScaffoldAction>,
}

/// A step, as plain values.
pub struct ActionView {
    pub action: Seq<char>,
    pub path: Seq<char>,
}

impl View for ScaffoldAction {
    type V = ActionView;

    open spec fn view(&self) -> ActionView {
        ActionView { action: self.action@, path: self.path@ }
    }
}

/// The steps, as plain values.
pub open spec fn actions_view(v: Seq<ScaffoldAction>) -> Seq<ActionView> {
    v.map_values(|a: ScaffoldAction| a@)
}

/// `cur/name`.
pub open spec fn sub_path(cur: Seq<char>, name: Seq<char>) -> Seq<char> {
    cur + "/"@ + name
}

/// The steps for what `node`, standing at `cur` at nesting `depth`,
/// expects: nothing past depth 10; a directory's literal entries; the
/// child of a parameter or a repeated segment, at the same path.
pub open spec fn scaffold_actions(node: LayoutNode, cur: Seq<char>, depth: nat) -> Seq<ActionView>
    decreases node, 1int,
{
    if depth > 10 {
        Seq::empty()
    } else {
        match node {
            LayoutNode::Dir { children, .. } => scaffold_children(children, cur, depth),
            LayoutNode::Param { child, .. } => scaffold_actions(*child, cur, depth + 1),
            LayoutNode::Many { child, .. } => scaffold_actions(*child, cur, depth + 1),
            _ => Seq::empty(),
        }
    }
}

/// The steps for the literal entries of a directory at `cur`, in order.
pub open spec fn scaffold_children(m: ChildMap, cur: Seq<char>, depth: nat) -> Seq<ActionView>
    decreases m, 0int,
{
    match m {
        ChildMap::Empty => Seq::empty(),
        ChildMap::Entry(k, n, rest) => (if begins_with(k@, '$') {
            Seq::empty()
        } else {
            scaffold_entry(k@, *n, cur, depth)
        }) + scaffold_children(*rest, cur, depth),
    }
}

/// The steps for the entry `name` holding `n` in a directory at `cur`: a
/// directory that is not optional is made and filled; a file that is not
/// optional is created; optional nodes get nothing; a parameter or
/// repeated segment is filled at the entry's path.
pub open spec fn scaffold_entry(name: Seq<char>, n: LayoutNode, cur: Seq<char>, depth: nat) -> Seq<ActionView>
    decreases n, 2int,
{
    let cp = sub_path(cur, name);
    match n {
        LayoutNode::Dir { optional, .. } => if !optional {
            seq![ActionView { action: "mkdir"@, path: cp }] + scaffold_actions(n, cp, depth + 1)
        } else {
            Seq::empty()
        },
        LayoutNode::File { optional, .. } => if !optional {
            seq![ActionView { action: "touch"@, path: cp }]
        } else {
            Seq::empty()
        },
        LayoutNode::Param { child, .. } => scaffold_actions(*child, cp, depth + 1),
        LayoutNode::Many { child, .. } => scaffold_actions(*child, cp, depth + 1),
        _ => Seq::empty(),
    }
}

/// Every step of a scaffold below `cur` is at a path inside `cur`.
pub proof fn lemma_scaffold_inside(node: LayoutNode, cur: Seq<char>, depth: nat)
    ensures
        forall|i: int|
            0 <= i < scaffold_actions(node, cur, depth).len() ==> is_prefix(
                cur + "/"@,
                #[trigger] scaffold_actions(node, cur, depth)[i].path,
            ),
    decreases node, 1int,
{
    if depth <= 10 {
        match node {
            LayoutNode::Dir { children, .. } => {
                lemma_scaffold_children_inside(children, cur, depth);
                assert(scaffold_actions(node, cur, depth) == scaffold_children(children, cur, depth));
            },
            LayoutNode::Param { child, .. } => {
                lemma_scaffold_inside(*child, cur, depth + 1);
                assert(scaffold_actions(node, cur, depth) == scaffold_actions(*child, cur, depth + 1));
            },
            LayoutNode::Many { child, .. } => {
                lemma_scaffold_inside(*child, cur, depth + 1);
                assert(scaffold_actions(node, cur, depth) == scaffold_actions(*child, cur, depth + 1));
            },
            _ => {},
        }
    }
}

proof fn lemma_scaffold_children_inside(m: ChildMap, cur: Seq<char>, depth: nat)
    ensures
        forall|i: int|
            0 <= i < scaffold_children(m, cur, depth).len() ==> is_prefix(
                cur + "/"@,
                #[trigger] scaffold_children(m, cur, depth)[i].path,
            ),
    decreases m, 0int,
{
    match m {
        ChildMap::Empty => {},
        ChildMap::Entry(k, n, rest) => {
            lemma_scaffold_children_inside(*rest, cur, depth);
            let first = if begins_with(k@, '$') {
                Seq::<ActionView>::empty()
            } else {
                scaffold_entry(k@, *n, cur, depth)
            };
            if !begins_with(k@, '$') {
                lemma_scaffold_entry_inside(k@, *n, cur, depth);
            }
            let all = scaffold_children(m, cur, depth);
            let tail = scaffold_children(*rest, cur, depth);
            assert(all == first + tail);
            assert forall|i: int| 0 <= i < all.len() implies is_prefix(cur + "/"@, #[trigger] all[i].path) by {
                if i < first.len() {
                    assert(all[i] == first[i]);
                } else {
                    assert(all[i] == tail[i - first.len()]);
                }
            }
        },
    }
}

proof fn lemma_scaffold_entry_inside(name: Seq<char>, n: LayoutNode, cur: Seq<char>, depth: nat)
    ensures
        forall|i: int|
            0 <= i < scaffold_entry(name, n, cur, depth).len() ==> is_prefix(
                cur + "/"@,
                #[trigger] scaffold_entry(name, n, cur, depth)[i].path,
            ),
    decreases n, 2int,
{
    let cp = sub_path(cur, name);
    assert(is_prefix(cur + "/"@, cp)) by {
        assert(cp.take((cur + "/"@).len() as int) =~= cur + "/"@);
    }
    assert forall|p: Seq<char>| is_prefix(cp + "/"@, p) implies is_prefix(cur + "/"@, p) by {
        assert(p.take((cur + "/"@).len() as int) =~= cp.take((cur + "/"@).len() as int));
    }
    let all = scaffold_entry(name, n, cur, depth);
    match n {
        LayoutNode::Dir { .. } => {
            lemma_scaffold_inside(n, cp, depth + 1);
            let tail = scaffold_actions(n, cp, depth + 1);
            assert forall|i: int| 0 <= i < all.len() implies is_prefix(cur + "/"@, #[trigger] all[i].path) by {
                if i > 0 && all.len() > 0 {
                    assert(all[i] == tail[i - 1]);
                    assert(is_prefix(cp + "/"@, tail[i - 1].path));
                }
            }
        },
        LayoutNode::Param { child, .. } => {
            lemma_scaffold_inside(*child, cp, depth + 1);
            let inner = scaffold_actions(*child, cp, depth + 1);
            assert(all == inner);
            assert forall|i: int| 0 <= i < all.len() implies is_prefix(cur + "/"@, #[trigger] all[i].path) by {
                assert(is_prefix(cp + "/"@, inner[i].path));
            }
        },
        LayoutNode::Many { child, .. } => {
            lemma_scaffold_inside(*child, cp, depth + 1);
            let inner = scaffold_actions(*child, cp, depth + 1);
            assert(all == inner);
            assert forall|i: int| 0 <= i < all.len() implies is_prefix(cur + "/"@, #[trigger] all[i].path) by {
                assert(is_prefix(cp + "/"@, inner[i].path));
            }
        },
        _ => {},
    }
}

/// The plan for a module `module_name` under `base_path`: make the module's
/// directory, then what the layout expects in it.
pub open spec fn module_plan(layout: LayoutNode, module_name: Seq<char>, base_path: Seq<char>) -> Seq<ActionView> {
    let module_dir = sub_path(base_path, module_name);
    seq![ActionView { action: "mkdir"@, path: module_dir }] + scaffold_actions(layout, module_dir, 0)
}

impl ScaffoldCommand {
    /// The plan for a module `module_name` under `base_path`: first the
    /// module's directory, then the directories and non-optional files the
    /// layout expects in it, every one inside the module's directory.
    pub fn plan_module_scaffold(layout: &LayoutNode, module_name: &str, base_path: &str) -> (r: ScaffoldPlan)
        ensures
            actions_view(r.actions@) == module_plan(*layout, module_name@, base_path@),
            r.actions@.len() >= 1,
            r.actions@[0]@ == (ActionView { action: "mkdir"@, path: sub_path(base_path@, module_name@) }),
            forall|i: int|
                1 <= i < r.actions@.len() ==> is_prefix(
                    sub_path(base_path@, module_name@) + "/"@,
                    #[trigger] r.actions@[i]@.path,
                ),
    {
        let mut module_dir = to_owned_string(base_path);
        module_dir.append("/");
        module_dir.append(module_name);
        let mut actions: Vec<ScaffoldAction> = Vec::new();
        actions.push(ScaffoldAction { action: String::from_str("mkdir"), path: module_dir.clone() });
        let ghost first = actions_view(actions@);
        assert(first =~= seq![ActionView { action: "mkdir"@, path: module_dir@ }]);
        Self::collect_scaffold_actions(layout, module_dir.as_str(), &mut actions, 0);
        proof {
            lemma_scaffold_inside(*layout, module_dir@, 0);
            let rest = scaffold_actions(*layout, module_dir@, 0);
            assert(actions_view(actions@) == first + rest);
            assert(actions_view(actions@).len() == actions@.len());
            assert forall|i: int| 1 <= i < actions@.len() implies is_prefix(
                module_dir@ + "/"@,
                #[trigger] actions@[i]@.path,
            ) by {
                assert(actions@[i]@ == actions_view(actions@)[i]);
                assert(actions_view(actions@)[i] == rest[i - 1]);
            }
            assert(actions@[0]@ == actions_view(actions@)[0]);
        }
        ScaffoldPlan { actions }
    }

    /// Appends the steps for what `node`, standing at `current_path`,
    /// expects; nothing is planned past nesting depth 10.
    pub fn collect_scaffold_actions(
        node: &LayoutNode,
        current_path: &str,
        actions: &mut Vec<ScaffoldAction>,
        depth: usize,
    )
        ensures
            actions_view(final(actions)@) == actions_view(old(actions)@) + scaffold_actions(
                *node,
                current_path@,
                depth as nat,
            ),
        decreases *node, 1int,
    {
        if depth > 10 {
            assert(actions_view(actions@) =~= actions_view(old(actions)@) + Seq::<ActionView>::empty());
            return;
        }
        match node {
            LayoutNode::Dir { children, .. } => {
                Self::collect_children(children, current_path, actions, depth);
            },
            LayoutNode::Param { child, .. } => {
                Self::collect_scaffold_actions(child, current_path, actions, depth + 1);
            },
            LayoutNode::Many { child, .. } => {
                Self::collect_scaffold_actions(child, current_path, actions, depth + 1);
            },
            _ => {
                assert(actions_view(actions@) =~= actions_view(old(actions)@) + Seq::<ActionView>::empty());
            },
        }
    }

    fn collect_children(m: &ChildMap, current_path: &str, actions: &mut Vec<ScaffoldAction>, depth: usize)
        requires
            depth <= 10,
        ensures
            actions_view(final(actions)@) == actions_view(old(actions)@) + scaffold_children(
                *m,
                current_path@,
                depth as nat,
            ),
        decreases *m, 0int,
    {
        match m {
            ChildMap::Empty => {
                assert(actions_view(actions@) =~= actions_view(old(actions)@) + Seq::<ActionView>::empty());
            },
            ChildMap::Entry(name, child, rest) => {
                let ghost before = actions_view(actions@);
                if !starts_with_char(name.as_str(), '$') {
                    Self::collect_entry(name.as_str(), child, current_path, actions, depth);
                } else {
                    assert(actions_view(actions@) =~= before + Seq::<ActionView>::empty());
                }
                let ghost mid = actions_view(actions@);
                Self::collect_children(rest, current_path, actions, depth);
                assert(actions_view(actions@) =~= before + scaffold_children(*m, current_path@, depth as nat));
            },
        }
    }

    fn collect_entry(name: &str, n: &LayoutNode, current_path: &str, actions: &mut Vec<ScaffoldAction>, depth: usize)
        requires
            depth <= 10,
        ensures
            actions_view(final(actions)@) == actions_view(old(actions)@) + scaffold_entry(
                name@,
                *n,
                current_path@,
                depth as nat,
            ),
        decreases *n, 2int,
    {
        let mut child_path = to_owned_string(current_path);
        child_path.append("/");
        child_path.append(name);
        let ghost before = actions_view(actions@);
        match n {
            LayoutNode::Dir { optional, .. } => {
                if !*optional {
                    actions.push(ScaffoldAction { action: String::from_str("mkdir"), path: child_path.clone() });
                    assert(actions_view(actions@) =~= before.push(ActionView { action: "mkdir"@, path: child_path@ }));
                    Self::collect_scaffold_actions(n, child_path.as_str(), actions, depth + 1);
                    assert(actions_view(actions@) =~= before + scaffold_entry(name@, *n, current_path@, depth as nat));
                } else {
                    assert(actions_view(actions@) =~= before + Seq::<ActionView>::empty());
                }
            },
            LayoutNode::File { optional, .. } => {
                if !*optional {
                    actions.push(ScaffoldAction { action: String::from_str("touch"), path: child_path });
                    assert(actions_view(actions@) =~= before + scaffold_entry(name@, *n, current_path@, depth as nat));
                } else {
                    assert(actions_view(actions@) =~= before + Seq::<ActionView>::empty());
                }
            },
            LayoutNode::Param { child, .. } => {
                Self::collect_scaffold_actions(child, child_path.as_str(), actions, depth + 1);
            },
            LayoutNode::Many { child, .. } => {
                Self::collect_scaffold_actions(child, child_path.as_str(), actions, depth + 1);
            },
            _ => {
                assert(actions_view(actions@) =~= before + Seq::<ActionView>::empty());
            },
        }
    }
}

} // verus!
