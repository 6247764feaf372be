//! The namespace of the AML interpreter: a tree of scopes, each named by
//! its absolute path, holding named variables. Nodes are kept in an arena
//! and name their parent and children by index; variables are handles
//! into a store of values.
use vstd::prelude::*;
use super::AmlError;
use super::name_object::{NameString, NameStringFlag};

verus! {

/// A scope: its path, its parent, its children and its variables.
pub struct TreeNode {
    name: NameString,
    parent: Option<usize>,
    children: Vec<usize>,
    variables: Vec<(NameString, usize)>,
}

/// The tree, the store of values and the current scope.
pub struct AmlVariableTree<V> {
    nodes: Vec<TreeNode>,
    values: Vec<V>,
    current: usize,
}

/// A saved current scope.
pub struct AmlVariableTreeBackup {
    current: usize,
}

/// The handle of the first variable of `vars` whose name equals `name`.
pub open spec fn var_lookup(vars: Seq<(NameString, usize)>, name: NameString, from: int) -> Option<usize>
    decreases vars.len() - from,
{
    if from < 0 || from >= vars.len() {
        None
    } else if vars[from].0.spec_eq(&name) {
        Some(vars[from].1)
    } else {
        var_lookup(vars, name, from + 1)
    }
}

proof fn lemma_var_lookup_push(vars: Seq<(NameString, usize)>, name: NameString, e: (NameString, usize), from: int)
    requires
        0 <= from <= vars.len(),
        var_lookup(vars, name, from) is None,
        e.0.spec_eq(&name),
    ensures
        var_lookup(vars.push(e), name, from) == Some(e.1),
    decreases vars.len() - from,
{
    if from < vars.len() {
        assert(vars.push(e)[from] == vars[from]);
        lemma_var_lookup_push(vars, name, e, from + 1);
    }
}

proof fn lemma_var_lookup_extend(vars: Seq<(NameString, usize)>, name: NameString, e: (NameString, usize), from: int)
    requires
        0 <= from <= vars.len(),
        var_lookup(vars, name, from) is Some,
    ensures
        var_lookup(vars.push(e), name, from) == var_lookup(vars, name, from),
    decreases vars.len() - from,
{
    if from < vars.len() {
        assert(vars.push(e)[from] == vars[from]);
        if !vars[from].0.spec_eq(&name) {
            lemma_var_lookup_extend(vars, name, e, from + 1);
        }
    }
}

proof fn lemma_var_lookup_bound(vars: Seq<(NameString, usize)>, name: NameString, from: int, n: int)
    requires
        forall|k: int| 0 <= k < vars.len() ==> #[trigger] vars[k].1 < n,
    ensures
        var_lookup(vars, name, from) matches Some(h) ==> h < n,
    decreases vars.len() - from,
{
    if from >= 0 && from < vars.len() && !vars[from].0.spec_eq(&name) {
        lemma_var_lookup_bound(vars, name, from + 1, n);
    }
}

impl<V> AmlVariableTree<V> {
    /// The path of node `i`.
    pub closed spec fn node_name(&self, i: int) -> NameString {
        self.nodes@[i].name
    }

    /// The parent of node `i`.
    pub closed spec fn node_parent(&self, i: int) -> Option<usize> {
        self.nodes@[i].parent
    }

    /// The variables of node `i`: names and handles.
    pub closed spec fn node_vars(&self, i: int) -> Seq<(NameString, usize)> {
        self.nodes@[i].variables@
    }

    pub closed spec fn node_count(&self) -> nat {
        self.nodes@.len()
    }

    pub closed spec fn spec_current(&self) -> int {
        self.current as int
    }

    /// The values of the store, by handle.
    pub closed spec fn spec_values(&self) -> Seq<V> {
        self.values@
    }

    /// The two trees have the same nodes.
    pub closed spec fn same_tree(&self, other: &Self) -> bool {
        self.nodes@ == other.nodes@
    }

    /// Trees with the same nodes have the same paths and variables.
    pub proof fn lemma_same_tree(&self, other: &Self)
        requires
            self.same_tree(other),
        ensures
            forall|i: int| #[trigger] self.node_vars(i) == other.node_vars(i),
            forall|i: int| #[trigger] self.node_name(i) == other.node_name(i),
            self.node_count() == other.node_count(),
    {
    }

    pub closed spec fn wf(&self) -> bool {
        &&& self.nodes@.len() >= 1
        &&& self.nodes@[0].parent is None
        &&& self.current < self.nodes@.len()
        &&& forall|i: int|
            1 <= i < self.nodes@.len() ==> ((#[trigger] self.nodes@[i]).parent matches Some(p) && p < i)
        &&& forall|i: int, k: int|
            0 <= i < self.nodes@.len() && 0 <= k < self.nodes@[i].children@.len()
                ==> #[trigger] self.nodes@[i].children@[k] < self.nodes@.len()
        &&& forall|i: int, k: int|
            0 <= i < self.nodes@.len() && 0 <= k < self.nodes@[i].variables@.len()
                ==> #[trigger] self.nodes@[i].variables@[k].1 < self.values@.len()
    }

    /// This tree is `old` after adding the single-segment variable `name`
    /// with `data` to its current scope, with the outcome `r`.
    pub open spec fn added(
        &self,
        old: &Self,
        name: NameString,
        data: V,
        allow_overwrite: bool,
        r: Result<usize, AmlError>,
    ) -> bool {
        let cur = old.spec_current();
        match old.current_lookup(name) {
            Some(h) => {
                &&& r == Ok::<usize, AmlError>(h)
                &&& self.same_tree(old)
                &&& self.spec_current() == cur
                &&& if allow_overwrite {
                    self.spec_values() == old.spec_values().update(h as int, data)
                } else {
                    self.spec_values() == old.spec_values()
                }
            },
            None => {
                &&& r == Ok::<usize, AmlError>(old.spec_values().len() as usize)
                &&& self.spec_values() == old.spec_values().push(data)
                &&& self.spec_current() == cur
                &&& self.node_count() == old.node_count()
                &&& self.node_vars(cur) == old.node_vars(cur).push((name, old.spec_values().len() as usize))
                &&& forall|i: int| 0 <= i < old.node_count() ==> #[trigger] self.node_name(i) == old.node_name(i)
            },
        }
    }

    /// What `find_data_from_current_scope` finds for a single name.
    pub open spec fn current_lookup(&self, name: NameString) -> Option<usize> {
        var_lookup(self.node_vars(self.spec_current()), name, 0)
    }

    /// A tree of the root scope alone.
    pub fn create_tree() -> (r: Self)
        ensures
            r.wf(),
            r.node_count() == 1,
            r.spec_current() == 0,
            r.node_name(0).segs().len() == 0,
            r.node_name(0).spec_flag() == NameStringFlag::AbsolutePath,
            r.node_vars(0).len() == 0,
            r.spec_values().len() == 0,
    {
        let root = TreeNode { name: NameString::root(), parent: None, children: Vec::new(), variables: Vec::new() };
        let mut nodes: Vec<TreeNode> = Vec::new();
        nodes.push(root);
        AmlVariableTree { nodes, values: Vec::new(), current: 0 }
    }

    pub fn get_current_scope_name(&self) -> (r: &NameString)
        requires
            self.wf(),
        ensures
            *r == self.node_name(self.spec_current()),
    {
        &self.nodes[self.current].name
    }

    pub fn move_to_root(&mut self) -> (r: Result<(), AmlError>)
        requires
            old(self).wf(),
        ensures
            final(self).wf(),
            r is Ok,
            final(self).spec_current() == 0,
            final(self).same_tree(&*old(self)),
            final(self).spec_values() == old(self).spec_values(),
    {
        self.current = 0;
        Ok(())
    }

    pub fn backup_current_scope(&self) -> (r: AmlVariableTreeBackup)
        ensures
            r.spec_current() == self.spec_current(),
    {
        AmlVariableTreeBackup { current: self.current }
    }

    /// Goes back to the scope saved in `backup`, which must be a scope of
    /// this tree.
    pub fn restore_current_scope(&mut self, backup: AmlVariableTreeBackup)
        requires
            old(self).wf(),
            backup.spec_current() < old(self).node_count(),
        ensures
            final(self).wf(),
            final(self).spec_current() == backup.spec_current(),
            final(self).same_tree(&*old(self)),
            final(self).spec_values() == old(self).spec_values(),
    {
        self.current = backup.current;
    }

    /// The first of the nodes `children[from..]` whose path equals `name`.
    spec fn child_lookup(&self, children: Seq<usize>, name: NameString, from: int) -> Option<usize>
        decreases children.len() - from,
    {
        if from < 0 || from >= children.len() {
            None
        } else if self.nodes@[children[from] as int].name.spec_eq(&name) {
            Some(children[from])
        } else {
            self.child_lookup(children, name, from + 1)
        }
    }

    /// The child of node `node` whose path equals `name`: the first such
    /// child, in the order the children were added.
    fn find_child(&self, node: usize, name: &NameString) -> (r: Option<usize>)
        requires
            self.wf(),
            node < self.node_count(),
        ensures
            r matches Some(c) ==> c < self.node_count(),
            r == self.child_lookup(self.nodes@[node as int].children@, *name, 0),
    {
        let children = &self.nodes[node].children;
        let mut k: usize = 0;
        while k < children.len()
            invariant
                self.wf(),
                node < self.nodes@.len(),
                *children == self.nodes@[node as int].children,
                k <= children@.len(),
                self.child_lookup(children@, *name, 0) == self.child_lookup(children@, *name, k as int),
            decreases children@.len() - k,
        {
            let c = children[k];
            if self.nodes[c].name == *name {
                return Some(c);
            }
            k = k + 1;
        }
        None
    }

    /// A new child of the current scope, named `name`, which becomes the
    /// current scope.
    fn add_child(&mut self, name: NameString)
        requires
            old(self).wf(),
        ensures
            final(self).wf(),
            final(self).node_count() == old(self).node_count() + 1,
            final(self).spec_current() == old(self).node_count(),
            final(self).spec_values() == old(self).spec_values(),
            forall|i: int| 0 <= i < old(self).node_count() ==> #[trigger] final(self).node_name(i)
                == old(self).node_name(i),
            forall|i: int| 0 <= i < old(self).node_count() ==> #[trigger] final(self).node_vars(i)
                == old(self).node_vars(i),
    {
        let new_index = self.nodes.len();
        let parent = self.current;
        self.nodes.push(TreeNode { name, parent: Some(parent), children: Vec::new(), variables: Vec::new() });
        self.nodes[parent].children.push(new_index);
        self.current = new_index;
        proof {
            assert forall|i: int, k: int|
                0 <= i < self.nodes@.len() && 0 <= k < self.nodes@[i].children@.len()
                    implies #[trigger] self.nodes@[i].children@[k] < self.nodes@.len() by {
                if i != parent && i < new_index {
                    assert(self.nodes@[i] == old(self).nodes@[i]);
                } else if i == parent {
                    if k < old(self).nodes@[i].children@.len() {
                        assert(self.nodes@[i].children@[k] == old(self).nodes@[i].children@[k]);
                    }
                }
            }
            assert forall|i: int, k: int|
                0 <= i < self.nodes@.len() && 0 <= k < self.nodes@[i].variables@.len()
                    implies #[trigger] self.nodes@[i].variables@[k].1 < self.values@.len() by {
                if i < new_index {
                    assert(self.nodes@[i].variables == old(self).nodes@[i].variables);
                }
            }
            assert forall|i: int| 1 <= i < self.nodes@.len() implies ((#[trigger] self.nodes@[i]).parent matches Some(p) && p < i) by {
                if i < new_index {
                    assert(self.nodes@[i].parent == old(self).nodes@[i].parent);
                }
            }
        }
    }

    /// Walks down from the current scope along the segments of `relative`,
    /// entering each child scope, and creating it where it is missing.
    fn move_down(&mut self, scope: &NameString, relative: &NameString) -> (r: Result<(), AmlError>)
        requires
            old(self).wf(),
        ensures
            final(self).wf(),
            final(self).node_count() >= old(self).node_count(),
            final(self).spec_values() == old(self).spec_values(),
            forall|i: int| 0 <= i < old(self).node_count() ==> #[trigger] final(self).node_name(i)
                == old(self).node_name(i),
            forall|i: int| 0 <= i < old(self).node_count() ==> #[trigger] final(self).node_vars(i)
                == old(self).node_vars(i),
            r is Err ==> (r matches Err(e) && e is InvalidName),
    {
        let n = relative.len();
        if n == 0 || relative.is_null_name() {
            return Err(AmlError::InvalidName(scope.clone()));
        }
        let mut index: usize = 0;
        while index < n
            invariant
                self.wf(),
                n == relative.segs().len(),
                !relative.is_null(),
                index <= n,
                self.node_count() >= old(self).node_count(),
                self.spec_values() == old(self).spec_values(),
                forall|i: int| 0 <= i < old(self).node_count() ==> #[trigger] self.node_name(i)
                    == old(self).node_name(i),
                forall|i: int| 0 <= i < old(self).node_count() ==> #[trigger] self.node_vars(i)
                    == old(self).node_vars(i),
            decreases n - index,
        {
            let element = match relative.get_element_as_name_string(index) {
                Some(e) => e,
                None => {
                    return Err(AmlError::InvalidName(scope.clone()));
                },
            };
            let target = element.get_full_name_path(&self.nodes[self.current].name, true);
            match self.find_child(self.current, &target) {
                Some(c) => {
                    let ghost pre = *self;
                    self.current = c;
                    proof {
                        assert forall|i: int| 0 <= i < old(self).node_count() implies #[trigger] self.node_name(i)
                            == old(self).node_name(i) by {
                            assert(pre.node_name(i) == old(self).node_name(i));
                            assert(self.node_name(i) == pre.node_name(i));
                        }
                        assert forall|i: int| 0 <= i < old(self).node_count() implies #[trigger] self.node_vars(i)
                            == old(self).node_vars(i) by {
                            assert(pre.node_vars(i) == old(self).node_vars(i));
                            assert(self.node_vars(i) == pre.node_vars(i));
                        }
                    }
                },
                None => {
                    let ghost pre = *self;
                    self.add_child(target);
                    proof {
                        assert forall|i: int| 0 <= i < old(self).node_count() implies #[trigger] self.node_name(i)
                            == old(self).node_name(i) by {
                            assert(pre.node_name(i) == old(self).node_name(i));
                            assert(self.node_name(i) == pre.node_name(i));
                        }
                        assert forall|i: int| 0 <= i < old(self).node_count() implies #[trigger] self.node_vars(i)
                            == old(self).node_vars(i) by {
                            assert(pre.node_vars(i) == old(self).node_vars(i));
                            assert(self.node_vars(i) == pre.node_vars(i));
                        }
                    }
                },
            }
            index = index + 1;
        }
        Ok(())
    }

    /// Makes `scope` the current scope: up the tree until it lies below
    /// the current scope, then down along the rest of its path, creating
    /// the scopes that are missing. The root is reached by an empty
    /// absolute path; another empty path, or a scope that no ancestor
    /// holds, is an invalid name.
    pub fn move_current_scope(&mut self, scope: &NameString) -> (r: Result<(), AmlError>)
        requires
            old(self).wf(),
        ensures
            final(self).wf(),
            final(self).node_count() >= old(self).node_count(),
            final(self).spec_values() == old(self).spec_values(),
            forall|i: int| 0 <= i < old(self).node_count() ==> #[trigger] final(self).node_name(i)
                == old(self).node_name(i),
            forall|i: int| 0 <= i < old(self).node_count() ==> #[trigger] final(self).node_vars(i)
                == old(self).node_vars(i),
            old(self).node_name(old(self).spec_current()).spec_eq(scope) ==> r is Ok
                && final(self).spec_current() == old(self).spec_current(),
            !old(self).node_name(old(self).spec_current()).spec_eq(scope) && scope.segs().len() == 0
                ==> if scope.spec_flag() == NameStringFlag::AbsolutePath {
                r is Ok && final(self).spec_current() == 0
            } else {
                r matches Err(e) && e is InvalidName
            },
            r is Err ==> (r matches Err(e) && e is InvalidName),
    {
        if self.nodes[self.current].name == *scope {
            return Ok(());
        } else if scope.len() == 0 {
            if scope.is_root() {
                self.current = 0;
                return Ok(());
            }
            return Err(AmlError::InvalidName(scope.clone()));
        }
        loop
            invariant
                self.wf(),
                self.nodes == old(self).nodes,
                self.values == old(self).values,
                scope.segs().len() != 0,
                !old(self).node_name(old(self).spec_current()).spec_eq(scope),
            decreases self.current,
        {
            if self.nodes[self.current].name == *scope {
                return Ok(());
            }
            if self.nodes[self.current].name.is_child(scope) {
                let relative = match scope.get_relative_name(&self.nodes[self.current].name) {
                    Some(n) => n,
                    None => {
                        return Err(AmlError::InvalidName(scope.clone()));
                    },
                };
                return self.move_down(scope, &relative);
            }
            match self.nodes[self.current].parent {
                Some(p) => {
                    proof {
                        if self.current == 0 {
                            assert(false);
                        }
                    }
                    self.current = p;
                },
                None => {
                    return Err(AmlError::InvalidName(scope.clone()));
                },
            }
        }
    }

    /// The handle of the first variable of node `node` named `name`.
    fn find_variable(&self, node: usize, name: &NameString) -> (r: Option<usize>)
        requires
            self.wf(),
            node < self.node_count(),
        ensures
            r == var_lookup(self.node_vars(node as int), *name, 0),
            r matches Some(h) ==> h < self.spec_values().len(),
    {
        let vars = &self.nodes[node].variables;
        let mut k: usize = 0;
        proof {
            lemma_var_lookup_bound(vars@, *name, 0, self.values@.len() as int);
        }
        while k < vars.len()
            invariant
                self.wf(),
                node < self.nodes@.len(),
                *vars == self.nodes@[node as int].variables,
                k <= vars@.len(),
                var_lookup(vars@, *name, 0) == var_lookup(vars@, *name, k as int),
            decreases vars@.len() - k,
        {
            if vars[k].0 == *name {
                return Some(vars[k].1);
            }
            k = k + 1;
        }
        None
    }

    /// The handle of the variable `name` from the root: the last segment
    /// names a variable of the scope that the others lead to. A scope on
    /// the way that does not exist gives none.
    pub fn find_data_from_root(&self, name: &NameString) -> (r: Result<Option<usize>, AmlError>)
        requires
            self.wf(),
            name.segs().len() >= 1,
            !name.is_null(),
        ensures
            r matches Ok(Some(h)) ==> h < self.spec_values().len(),
            r is Ok,
    {
        self.find_from(0, name)
    }

    fn find_from(&self, start: usize, name: &NameString) -> (r: Result<Option<usize>, AmlError>)
        requires
            self.wf(),
            start < self.node_count(),
            name.segs().len() >= 1,
            !name.is_null(),
        ensures
            r matches Ok(Some(h)) ==> h < self.spec_values().len(),
            r is Ok,
            name.segs().len() == 1 ==> r == Ok::<Option<usize>, AmlError>(
                var_lookup(self.node_vars(start as int), *name, 0),
            ),
    {
        let mut scope = start;
        let mut index: usize = 0;
        let last = name.len() - 1;
        loop
            invariant
                self.wf(),
                scope < self.nodes@.len(),
                last == name.segs().len() - 1,
                index <= last,
                !name.is_null(),
                name.segs().len() == 1 ==> scope == start,
            decreases last - index,
        {
            if index == last {
                let element = match name.get_element_as_name_string(index) {
                    Some(e) => e,
                    None => {
                        return Ok(None);
                    },
                };
                let found = self.find_variable(scope, &element);
                proof {
                    if name.segs().len() == 1 {
                        lemma_single_lookup(self.node_vars(scope as int), *name, element);
                    }
                }
                return Ok(found);
            }
            let child_scope = match name.get_element_as_name_string(index) {
                Some(e) => e.get_full_name_path(&self.nodes[scope].name, true),
                None => NameString::root(),
            };
            match self.find_child(scope, &child_scope) {
                Some(c) => {
                    scope = c;
                    index = index + 1;
                },
                None => {
                    return Ok(None);
                },
            }
        }
    }

    /// The handle of the variable `name` seen from the current scope: a
    /// single segment is a variable of the current scope; a longer path is
    /// taken relative to it, where it lies below it, and from the current
    /// scope down otherwise.
    pub fn find_data_from_current_scope(&self, name: &NameString) -> (r: Result<Option<usize>, AmlError>)
        requires
            self.wf(),
            name.segs().len() >= 1,
            !name.is_null(),
        ensures
            r is Ok,
            r matches Ok(Some(h)) ==> h < self.spec_values().len(),
            name.segs().len() == 1 ==> r == Ok::<Option<usize>, AmlError>(self.current_lookup(*name)),
    {
        if name.len() != 1 {
            if let Some(relative) = name.get_relative_name(&self.nodes[self.current].name) {
                if relative.len() == 1 {
                    return Ok(self.find_variable(self.current, &relative));
                }
            }
            self.find_from(self.current, name)
        } else {
            Ok(self.find_variable(self.current, name))
        }
    }

    /// Adds the variable `name` with value `data` to the current scope, or,
    /// where it exists, gives its handle (and stores `data` in it where
    /// `allow_overwrite`). A longer path is added to the scope it names.
    pub fn add_data(&mut self, name: NameString, data: V, allow_overwrite: bool) -> (r: Result<usize, AmlError>)
        requires
            old(self).wf(),
            name.segs().len() >= 1,
            !name.is_null(),
        ensures
            final(self).wf(),
            r matches Ok(h) ==> h < final(self).spec_values().len(),
            name.segs().len() == 1 ==> final(self).added(&*old(self), name, data, allow_overwrite, r),
    {
        if name.len() != 1 {
            let saved = self.current;
            let target_name = match name.get_relative_name(&self.nodes[self.current].name) {
                Some(relative) if relative.len() == 1 => relative,
                _ => {
                    let scope = name.get_scope_name();
                    match self.move_current_scope(&scope) {
                        Ok(()) => {},
                        Err(e) => {
                            self.current = if saved < self.nodes.len() {
                                saved
                            } else {
                                0
                            };
                            return Err(e);
                        },
                    }
                    match name.get_relative_name(&self.nodes[self.current].name) {
                        Some(relative) if relative.len() == 1 && !relative.is_null_name() => relative,
                        _ => {
                            self.current = if saved < self.nodes.len() {
                                saved
                            } else {
                                0
                            };
                            return Err(AmlError::InvalidName(name));
                        },
                    }
                },
            };
            if target_name.is_null_name() {
                self.current = if saved < self.nodes.len() {
                    saved
                } else {
                    0
                };
                return Err(AmlError::InvalidName(name));
            }
            let r = self.add_single(target_name, data, allow_overwrite);
            self.current = if saved < self.nodes.len() {
                saved
            } else {
                0
            };
            return r;
        }
        self.add_single(name, data, allow_overwrite)
    }

    fn add_single(&mut self, name: NameString, data: V, allow_overwrite: bool) -> (r: Result<usize, AmlError>)
        requires
            old(self).wf(),
            name.segs().len() == 1,
            !name.is_null(),
        ensures
            final(self).wf(),
            r matches Ok(h) ==> h < final(self).spec_values().len(),
            final(self).added(&*old(self), name, data, allow_overwrite, r),
    {
        match self.find_variable(self.current, &name) {
            Some(h) => {
                if allow_overwrite {
                    self.values.set(h, data);
                }
                Ok(h)
            },
            None => {
                let h = self.values.len();
                self.values.push(data);
                let cur = self.current;
                self.nodes[cur].variables.push((name, h));
                proof {
                    assert forall|i: int, k: int|
                        0 <= i < self.nodes@.len() && 0 <= k < self.nodes@[i].variables@.len()
                            implies #[trigger] self.nodes@[i].variables@[k].1 < self.values@.len() by {
                        if i != cur {
                            assert(self.nodes@[i] == old(self).nodes@[i]);
                        } else if k < old(self).nodes@[i].variables@.len() {
                            assert(self.nodes@[i].variables@[k] == old(self).nodes@[i].variables@[k]);
                        }
                    }
                    assert forall|i: int, k: int|
                        0 <= i < self.nodes@.len() && 0 <= k < self.nodes@[i].children@.len()
                            implies #[trigger] self.nodes@[i].children@[k] < self.nodes@.len() by {
                        assert(self.nodes@[i].children == old(self).nodes@[i].children);
                    }
                    assert forall|i: int| 1 <= i < self.nodes@.len() implies ((#[trigger] self.nodes@[i]).parent matches Some(p) && p < i) by {
                        assert(self.nodes@[i].parent == old(self).nodes@[i].parent);
                    }
                    assert forall|i: int| 0 <= i < old(self).node_count() implies #[trigger] self.node_name(i)
                        == old(self).node_name(i) by {
                        assert(self.nodes@[i].name == old(self).nodes@[i].name);
                    }
                }
                Ok(h)
            },
        }
    }
}

/// A single-segment name finds what its one element finds.
proof fn lemma_single_lookup(vars: Seq<(NameString, usize)>, name: NameString, element: NameString)
    requires
        name.segs().len() == 1,
        !name.is_null(),
        element.segs() == seq![name.segs()[0]],
        !element.is_null(),
    ensures
        var_lookup(vars, element, 0) == var_lookup(vars, name, 0),
{
    assert(element.segs() =~= name.segs());
    lemma_lookup_same(vars, element, name, 0);
}

proof fn lemma_lookup_same(vars: Seq<(NameString, usize)>, a: NameString, b: NameString, from: int)
    requires
        a.segs() == b.segs(),
        !a.is_null(),
        !b.is_null(),
    ensures
        var_lookup(vars, a, from) == var_lookup(vars, b, from),
    decreases vars.len() - from,
{
    if from >= 0 && from < vars.len() {
        lemma_lookup_same(vars, a, b, from + 1);
    }
}

impl AmlVariableTreeBackup {
    pub closed spec fn spec_current(&self) -> int {
        self.current as int
    }
}

/// What a variable is added to the current scope under, looking it up
/// there finds: the handle that `add_data` gave, holding `data` unless an
/// existing variable was kept.
pub proof fn lemma_add_then_find<V>(
    old: AmlVariableTree<V>,
    new: AmlVariableTree<V>,
    name: NameString,
    data: V,
    allow_overwrite: bool,
    r: Result<usize, AmlError>,
)
    requires
        old.wf(),
        name.segs().len() == 1,
        !name.is_null(),
        new.added(&old, name, data, allow_overwrite, r),
    ensures
        r matches Ok(h) && new.current_lookup(name) == Some(h),
        (old.current_lookup(name) is None || allow_overwrite) ==> (r matches Ok(h)
            && new.spec_values()[h as int] == data),
{
    let cur = old.spec_current();
    assert(old.values@.len() == old.values.len());
    assert forall|k: int| 0 <= k < old.node_vars(cur).len() implies #[trigger] old.node_vars(cur)[k].1
        < old.values@.len() by {
        assert(old.nodes@[cur].variables@[k].1 < old.values@.len());
    }
    lemma_var_lookup_bound(old.node_vars(cur), name, 0, old.values@.len() as int);
    match old.current_lookup(name) {
        Some(h) => {
            new.lemma_same_tree(&old);
        },
        None => {
            let cur = old.spec_current();
            lemma_var_lookup_push(old.node_vars(cur), name, (name, old.spec_values().len() as usize), 0);
        },
    }
}

} // verus!
