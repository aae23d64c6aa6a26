//! Role-based access control: roles with permissions, users with roles.
use vstd::prelude::*;
use vstd::string::*;

use crate::error::BlixardError;
use crate::text::{concat, text_eq};

verus! {

/// A permission for a kind of operation.
#[derive(Debug, Clone, Copy, PartialEq, Eq, Hash, Structural)]
pub enum Permission {
    ClusterRead,
    ClusterWrite,
    ClusterAdmin,
    VmRead,
    VmWrite,
    VmDelete,
    VmExecute,
    NodeRead,
    NodeWrite,
    NodeAdmin,
    /// Grants every permission.
    AdminAll,
}

/// A resource that access can be checked for.
#[derive(Debug, Clone, PartialEq, Eq, Hash)]
pub enum ResourceType {
    Cluster,
    /// A VM, by name.
    Vm(String),
    /// A node, by id.
    Node(u64),
    All,
}

/// An action on a resource.
#[derive(Debug, Clone, Copy, PartialEq, Eq, Hash, Structural)]
pub enum Action {
    Read,
    Write,
    Delete,
    Execute,
    Admin,
}

/// A named set of permissions.
#[derive(Debug, Clone)]
pub struct Role {
    pub name: String,
    /// The permissions of the role; none occurs twice.
    pub permissions: Vec<Permission>,
    pub description: String,
}

/// A user with the roles and permissions it holds.
#[derive(Debug, Clone)]
pub struct UserContext {
    pub user_id: String,
    pub roles: Vec<String>,
    /// Every permission of the user's known roles, each once.
    pub permissions: Vec<Permission>,
    pub tenant_id: String,
}

/// Roles and their assignment to users.
#[derive(Debug)]
pub struct RbacManager {
    /// Known roles; no name occurs twice.
    pub roles: Vec<Role>,
    /// Role names of each user; no user occurs twice.
    pub user_roles: Vec<(String, Vec<String>)>,
}

/// The role with this name, if known.
pub open spec fn role_lookup(roles: Seq<Role>, name: Seq<char>) -> Option<Role>
    decreases roles.len(),
{
    if roles.len() == 0 {
        None
    } else if roles[0].name@ == name {
        Some(roles[0])
    } else {
        role_lookup(roles.drop_first(), name)
    }
}

/// The role names of a user, if the user has an entry.
pub open spec fn user_lookup(users: Seq<(String, Vec<String>)>, user: Seq<char>) -> Option<Seq<String>>
    decreases users.len(),
{
    if users.len() == 0 {
        None
    } else if users[0].0@ == user {
        Some(users[0].1@)
    } else {
        user_lookup(users.drop_first(), user)
    }
}

/// Whether the named role grants `p`: it has `p` or `AdminAll`.
pub open spec fn role_grants(roles: Seq<Role>, name: Seq<char>, p: Permission) -> bool {
    match role_lookup(roles, name) {
        Some(r) => r.permissions@.contains(p) || r.permissions@.contains(Permission::AdminAll),
        None => false,
    }
}

/// Whether the named role has `p` itself.
pub open spec fn role_has(roles: Seq<Role>, name: Seq<char>, p: Permission) -> bool {
    match role_lookup(roles, name) {
        Some(r) => r.permissions@.contains(p),
        None => false,
    }
}

/// The permissions of the admin role.
pub open spec fn admin_permissions() -> Seq<Permission> {
    seq![
        Permission::AdminAll,
        Permission::ClusterRead,
        Permission::ClusterWrite,
        Permission::ClusterAdmin,
        Permission::VmRead,
        Permission::VmWrite,
        Permission::VmDelete,
        Permission::VmExecute,
        Permission::NodeRead,
        Permission::NodeWrite,
        Permission::NodeAdmin,
    ]
}

/// The permissions of the operator role.
pub open spec fn operator_permissions() -> Seq<Permission> {
    seq![
        Permission::ClusterRead,
        Permission::VmRead,
        Permission::VmWrite,
        Permission::VmExecute,
        Permission::NodeRead,
    ]
}

/// The permissions of the viewer role.
pub open spec fn viewer_permissions() -> Seq<Permission> {
    seq![Permission::ClusterRead, Permission::VmRead, Permission::NodeRead]
}

fn make_role(name: &str, permissions: Vec<Permission>, description: &str) -> (r: Role)
    ensures
        r.name@ == name@,
        r.permissions@ == permissions@,
        r.description@ == description@,
{
    Role { name: String::from_str(name), permissions, description: String::from_str(description) }
}

impl RbacManager {
    /// Well-formed: role names and users are unique, and no role lists a permission twice.
    pub open spec fn wf(&self) -> bool {
        &&& forall|i: int, j: int|
            0 <= i < j < self.roles@.len() ==> self.roles@[i].name@ != self.roles@[j].name@
        &&& forall|i: int, j: int|
            0 <= i < j < self.user_roles@.len() ==> self.user_roles@[i].0@ != self.user_roles@[j].0@
        &&& forall|i: int| 0 <= i < self.roles@.len() ==> (#[trigger] self.roles@[i]).permissions@.no_duplicates()
    }

    /// Whether the user holds `p` through one of its roles.
    pub open spec fn spec_has_permission(&self, user: Seq<char>, p: Permission) -> bool {
        match user_lookup(self.user_roles@, user) {
            Some(names) => exists|i: int|
                0 <= i < names.len() && role_grants(self.roles@, (#[trigger] names[i])@, p),
            None => false,
        }
    }

    /// A manager with the admin, operator and viewer roles and no users.
    pub fn new() -> (m: Self)
        ensures
            m.wf(),
            m.user_roles@.len() == 0,
            m.roles@.len() == 3,
            m.roles@[0].name@ == "admin"@,
            m.roles@[0].permissions@ == admin_permissions(),
            m.roles@[0].description@ == "Full administrative access"@,
            m.roles@[1].name@ == "operator"@,
            m.roles@[1].permissions@ == operator_permissions(),
            m.roles@[1].description@ == "VM operator access"@,
            m.roles@[2].name@ == "viewer"@,
            m.roles@[2].permissions@ == viewer_permissions(),
            m.roles@[2].description@ == "Read-only access"@,
    {
        let mut m = RbacManager { roles: Vec::new(), user_roles: Vec::new() };
        m.init_default_roles();
        m
    }

    /// Adds the admin, operator and viewer roles to a manager without roles.
    pub fn init_default_roles(&mut self)
        requires
            old(self).roles@.len() == 0,
            old(self).user_roles@.len() == 0,
        ensures
            final(self).wf(),
            final(self).user_roles@.len() == 0,
            final(self).roles@.len() == 3,
            final(self).roles@[0].name@ == "admin"@,
            final(self).roles@[0].permissions@ == admin_permissions(),
            final(self).roles@[0].description@ == "Full administrative access"@,
            final(self).roles@[1].name@ == "operator"@,
            final(self).roles@[1].permissions@ == operator_permissions(),
            final(self).roles@[1].description@ == "VM operator access"@,
            final(self).roles@[2].name@ == "viewer"@,
            final(self).roles@[2].permissions@ == viewer_permissions(),
            final(self).roles@[2].description@ == "Read-only access"@,
    {
        let mut admin: Vec<Permission> = Vec::new();
        admin.push(Permission::AdminAll);
        admin.push(Permission::ClusterRead);
        admin.push(Permission::ClusterWrite);
        admin.push(Permission::ClusterAdmin);
        admin.push(Permission::VmRead);
        admin.push(Permission::VmWrite);
        admin.push(Permission::VmDelete);
        admin.push(Permission::VmExecute);
        admin.push(Permission::NodeRead);
        admin.push(Permission::NodeWrite);
        admin.push(Permission::NodeAdmin);
        let mut operator: Vec<Permission> = Vec::new();
        operator.push(Permission::ClusterRead);
        operator.push(Permission::VmRead);
        operator.push(Permission::VmWrite);
        operator.push(Permission::VmExecute);
        operator.push(Permission::NodeRead);
        let mut viewer: Vec<Permission> = Vec::new();
        viewer.push(Permission::ClusterRead);
        viewer.push(Permission::VmRead);
        viewer.push(Permission::NodeRead);
        proof {
            assert(admin@ =~= admin_permissions());
            assert(operator@ =~= operator_permissions());
            assert(viewer@ =~= viewer_permissions());
            reveal_strlit("admin");
            reveal_strlit("operator");
            reveal_strlit("viewer");
        }
        self.roles.push(make_role("admin", admin, "Full administrative access"));
        self.roles.push(make_role("operator", operator, "VM operator access"));
        self.roles.push(make_role("viewer", viewer, "Read-only access"));
        proof {
            assert(self.roles@[0].permissions@.no_duplicates());
            assert(self.roles@[1].permissions@.no_duplicates());
            assert(self.roles@[2].permissions@.no_duplicates());
            reveal_strlit("admin");
            reveal_strlit("operator");
            reveal_strlit("viewer");
            assert("admin"@.len() == 5);
            assert("operator"@.len() == 8);
            assert("viewer"@.len() == 6);
            assert(self.roles@[0].name@ != self.roles@[1].name@);
            assert(self.roles@[0].name@ != self.roles@[2].name@);
            assert(self.roles@[1].name@ != self.roles@[2].name@);
        }
    }

    fn find_role(&self, name: &str) -> (r: Option<usize>)
        ensures
            match r {
                Some(i) => i < self.roles@.len() && self.roles@[i as int].name@ == name@
                    && role_lookup(self.roles@, name@) == Some(self.roles@[i as int]),
                None => role_lookup(self.roles@, name@) is None,
            },
    {
        let mut i: usize = 0;
        proof {
            assert(self.roles@.skip(0) =~= self.roles@);
        }
        while i < self.roles.len()
            invariant
                i <= self.roles@.len(),
                role_lookup(self.roles@, name@) == role_lookup(self.roles@.skip(i as int), name@),
            decreases self.roles@.len() - i,
        {
            proof {
                assert(self.roles@.skip(i as int)[0] == self.roles@[i as int]);
                assert(self.roles@.skip(i as int).drop_first() =~= self.roles@.skip(i as int + 1));
            }
            if text_eq(self.roles[i].name.as_str(), name) {
                return Some(i);
            }
            i = i + 1;
        }
        None
    }

    fn find_user(&self, user: &str) -> (r: Option<usize>)
        ensures
            match r {
                Some(i) => i < self.user_roles@.len() && self.user_roles@[i as int].0@ == user@
                    && user_lookup(self.user_roles@, user@) == Some(self.user_roles@[i as int].1@),
                None => user_lookup(self.user_roles@, user@) is None && forall|j: int|
                    0 <= j < self.user_roles@.len() ==> self.user_roles@[j].0@ != user@,
            },
    {
        let mut i: usize = 0;
        proof {
            assert(self.user_roles@.skip(0) =~= self.user_roles@);
        }
        while i < self.user_roles.len()
            invariant
                i <= self.user_roles@.len(),
                user_lookup(self.user_roles@, user@) == user_lookup(self.user_roles@.skip(i as int), user@),
                forall|j: int| 0 <= j < i ==> self.user_roles@[j].0@ != user@,
            decreases self.user_roles@.len() - i,
        {
            proof {
                assert(self.user_roles@.skip(i as int)[0] == self.user_roles@[i as int]);
                assert(self.user_roles@.skip(i as int).drop_first() =~= self.user_roles@.skip(
                    i as int + 1,
                ));
            }
            if text_eq(self.user_roles[i].0.as_str(), user) {
                return Some(i);
            }
            i = i + 1;
        }
        None
    }

    fn perm_in(perms: &Vec<Permission>, p: Permission) -> (r: bool)
        ensures
            r == perms@.contains(p),
    {
        let mut i: usize = 0;
        while i < perms.len()
            invariant
                i <= perms@.len(),
                forall|k: int| 0 <= k < i ==> perms@[k] != p,
            decreases perms@.len() - i,
        {
            if perms[i] == p {
                proof {
                    assert(perms@[i as int] == p);
                }
                return true;
            }
            i = i + 1;
        }
        false
    }

    /// Whether the user holds the permission through one of its roles (roles that
    /// are not known grant nothing; `AdminAll` grants everything).
    pub fn has_permission(&self, user_id: &str, permission: Permission) -> (r: bool)
        ensures
            r == self.spec_has_permission(user_id@, permission),
    {
        match self.find_user(user_id) {
            Some(u) => {
                let names = &self.user_roles[u].1;
                let mut i: usize = 0;
                while i < names.len()
                    invariant
                        i <= names@.len(),
                        user_lookup(self.user_roles@, user_id@) == Some(names@),
                        forall|k: int| 0 <= k < i ==> !role_grants(self.roles@, (#[trigger] names@[k])@, permission),
                    decreases names@.len() - i,
                {
                    match self.find_role(names[i].as_str()) {
                        Some(ri) => {
                            let perms = &self.roles[ri].permissions;
                            if Self::perm_in(perms, permission) || Self::perm_in(perms, Permission::AdminAll) {
                                proof {
                                    let ns = user_lookup(self.user_roles@, user_id@)->Some_0;
                                    assert(ns == names@);
                                    assert(role_grants(self.roles@, ns[i as int]@, permission));
                                    assert(self.spec_has_permission(user_id@, permission));
                                }
                                return true;
                            }
                        },
                        None => {},
                    }
                    i = i + 1;
                }
                false
            },
            None => false,
        }
    }
}


/// Whether one of the named roles that are known has `p` itself.
pub open spec fn roles_have(roles: Seq<Role>, names: Seq<String>, p: Permission) -> bool {
    exists|i: int| 0 <= i < names.len() && role_has(roles, (#[trigger] names[i])@, p)
}

/// The predicate keeping role names other than `role`.
pub open spec fn other_role(role: Seq<char>) -> spec_fn(String) -> bool {
    |n: String| n@ != role
}

/// The names of a user's roles with `role` left out.
pub open spec fn without_role(names: Seq<String>, role: Seq<char>) -> Seq<String> {
    names.filter(other_role(role))
}

impl RbacManager {
    fn add_permissions(out: &mut Vec<Permission>, perms: &Vec<Permission>)
        requires
            old(out)@.no_duplicates(),
        ensures
            final(out)@.no_duplicates(),
            forall|p: Permission| final(out)@.contains(p) <==> (old(out)@.contains(p) || perms@.contains(p)),
    {
        let mut i: usize = 0;
        while i < perms.len()
            invariant
                i <= perms@.len(),
                out@.no_duplicates(),
                forall|p: Permission|
                    out@.contains(p) <==> (old(out)@.contains(p) || perms@.take(i as int).contains(p)),
            decreases perms@.len() - i,
        {
            let p = perms[i];
            proof {
                assert(perms@.take(i as int + 1) =~= perms@.take(i as int).push(p));
            }
            let ghost o = out@;
            proof {
                assert forall|q: Permission| o.contains(q) <==> (old(out)@.contains(q)
                    || perms@.take(i as int).contains(q)) by {}
            }
            if !Self::perm_in(out, p) {
                out.push(p);
            }
            proof {
                assert forall|q: Permission| out@.contains(q) <==> (o.contains(q) || q == p) by {
                    if out@.contains(q) {
                        let w = choose|w: int| 0 <= w < out@.len() && out@[w] == q;
                        if w < o.len() {
                            assert(o[w] == q);
                        }
                    }
                    if o.contains(q) {
                        let w = choose|w: int| 0 <= w < o.len() && o[w] == q;
                        assert(out@[w] == q);
                    }
                    if q == p && !o.contains(q) {
                        assert(out@[o.len() as int] == q);
                    }
                }
                assert forall|q: Permission| out@.contains(q) <==> (old(out)@.contains(q)
                    || perms@.take(i as int + 1).contains(q)) by {
                    let t1 = perms@.take(i as int + 1);
                    let t0 = perms@.take(i as int);
                    assert(o.contains(q) <==> (old(out)@.contains(q) || t0.contains(q)));
                    assert(out@.contains(q) <==> (o.contains(q) || q == p));
                    if t1.contains(q) {
                        let w = choose|w: int| 0 <= w < t1.len() && t1[w] == q;
                        if w < i {
                            assert(t0[w] == q);
                        }
                    }
                    if t0.contains(q) {
                        let w = choose|w: int| 0 <= w < t0.len() && t0[w] == q;
                        assert(t1[w] == q);
                    }
                    if q == p {
                        assert(t1[i as int] == p);
                    }
                }
            }
            i = i + 1;
        }
        proof {
            assert(perms@.take(perms@.len() as int) =~= perms@);
        }
    }

    /// The user's roles and every permission they carry, or `None` for a user without
    /// an entry.
    pub fn get_user_context(&self, user_id: &str, tenant_id: &str) -> (r: Option<UserContext>)
        ensures
            match user_lookup(self.user_roles@, user_id@) {
                None => r is None,
                Some(names) => r matches Some(c) && {
                    &&& c.user_id@ == user_id@
                    &&& c.tenant_id@ == tenant_id@
                    &&& c.roles@.len() == names.len()
                    &&& forall|k: int| 0 <= k < names.len() ==> (#[trigger] c.roles@[k])@ == names[k]@
                    &&& c.permissions@.no_duplicates()
                    &&& forall|p: Permission|
                        c.permissions@.contains(p) <==> roles_have(self.roles@, names, p)
                },
            },
    {
        match self.find_user(user_id) {
            None => None,
            Some(u) => {
                let names = &self.user_roles[u].1;
                let mut permissions: Vec<Permission> = Vec::new();
                let mut roles: Vec<String> = Vec::new();
                let mut i: usize = 0;
                while i < names.len()
                    invariant
                        i <= names@.len(),
                        permissions@.no_duplicates(),
                        roles@.len() == i,
                        forall|k: int| 0 <= k < i ==> (#[trigger] roles@[k])@ == names@[k]@,
                        forall|p: Permission|
                            permissions@.contains(p) <==> roles_have(
                                self.roles@,
                                names@.take(i as int),
                                p,
                            ),
                    decreases names@.len() - i,
                {
                    let ghost before = permissions@;
                    match self.find_role(names[i].as_str()) {
                        Some(ri) => {
                            Self::add_permissions(&mut permissions, &self.roles[ri].permissions);
                        },
                        None => {},
                    }
                    roles.push(names[i].clone());
                    proof {
                        let t = names@.take(i as int + 1);
                        let t0 = names@.take(i as int);
                        assert forall|p: Permission| permissions@.contains(p) <==> roles_have(
                            self.roles@,
                            t,
                            p,
                        ) by {
                            if roles_have(self.roles@, t, p) {
                                let w = choose|w: int| 0 <= w < t.len() && role_has(self.roles@, (#[trigger] t[w])@, p);
                                if w < i {
                                    assert(t0[w] == t[w]);
                                }
                            }
                            if roles_have(self.roles@, t0, p) {
                                let w = choose|w: int| 0 <= w < t0.len() && role_has(self.roles@, (#[trigger] t0[w])@, p);
                                assert(t[w] == t0[w]);
                            }
                            if role_has(self.roles@, names@[i as int]@, p) {
                                assert(t[i as int] == names@[i as int]);
                            }
                        }
                    }
                    i = i + 1;
                }
                proof {
                    assert(names@.take(names@.len() as int) =~= names@);
                }
                Some(
                    UserContext {
                        user_id: String::from_str(user_id),
                        roles,
                        permissions,
                        tenant_id: String::from_str(tenant_id),
                    },
                )
            },
        }
    }

    /// Gives a user a role, which must be known; the role joins the end of the
    /// user's list.
    pub fn assign_role(&mut self, user_id: &str, role_name: &str) -> (r: Result<(), BlixardError>)
        requires
            old(self).wf(),
        ensures
            final(self).wf(),
            final(self).roles == old(self).roles,
            role_lookup(old(self).roles@, role_name@) is None ==> {
                &&& r is Err
                &&& (r->Err_0 matches BlixardError::NotFound { item } && item@ == "Role: "@ + role_name@)
                &&& final(self).user_roles@ == old(self).user_roles@
            },
            role_lookup(old(self).roles@, role_name@) is Some ==> {
                &&& r is Ok
                &&& user_lookup(final(self).user_roles@, user_id@) matches Some(names) && {
                    let before = match user_lookup(old(self).user_roles@, user_id@) {
                        Some(b) => b,
                        None => Seq::empty(),
                    };
                    &&& names.len() == before.len() + 1
                    &&& forall|k: int| 0 <= k < before.len() ==> (#[trigger] names[k])@ == before[k]@
                    &&& names[before.len() as int]@ == role_name@
                }
                &&& forall|u: Seq<char>|
                    u != user_id@ ==> user_lookup(final(self).user_roles@, u) == user_lookup(
                        old(self).user_roles@,
                        u,
                    )
            },
    {
        if self.find_role(role_name).is_none() {
            return Err(BlixardError::NotFound { item: concat("Role: ", role_name) });
        }
        let ghost before = self.user_roles@;
        match self.find_user(user_id) {
            Some(u) => {
                let entry = vstd::std_specs::vec::vec_index_mut(&mut self.user_roles, u);
                entry.1.push(String::from_str(role_name));
                proof {
                    let after = self.user_roles@;
                    assert(after[u as int].0 == before[u as int].0);
                    lemma_user_lookup_at(after, u as int);
                    assert forall|a: int, b: int| 0 <= a < b < after.len() implies after[a].0@
                        != after[b].0@ by {
                        assert(before[a].0@ != before[b].0@);
                    }
                    lemma_user_lookup_at(before, u as int);
                    assert forall|x: Seq<char>| x != user_id@ implies user_lookup(after, x)
                        == user_lookup(before, x) by {
                        lemma_user_lookup_update(before, u as int, after[u as int], x);
                    }
                }
            },
            None => {
                let mut names: Vec<String> = Vec::new();
                names.push(String::from_str(role_name));
                self.user_roles.push((String::from_str(user_id), names));
                proof {
                    let after = self.user_roles@;
                    assert forall|x: Seq<char>| x != user_id@ implies user_lookup(after, x)
                        == user_lookup(before, x) by {
                        lemma_user_lookup_push(before, after.last(), x);
                    }
                    lemma_user_lookup_push(before, after.last(), user_id@);
                    assert(after =~= before.push(after.last()));
                }
            },
        }
        Ok(())
    }

    /// Takes a role away from a user: every occurrence of it leaves the user's list.
    pub fn remove_role(&mut self, user_id: &str, role_name: &str) -> (r: Result<(), BlixardError>)
        requires
            old(self).wf(),
        ensures
            r is Ok,
            final(self).wf(),
            final(self).roles == old(self).roles,
            match user_lookup(old(self).user_roles@, user_id@) {
                None => final(self).user_roles@ == old(self).user_roles@,
                Some(before) => user_lookup(final(self).user_roles@, user_id@) matches Some(names) && {
                    let kept = without_role(before, role_name@);
                    &&& names.len() == kept.len()
                    &&& forall|k: int| 0 <= k < kept.len() ==> (#[trigger] names[k])@ == kept[k]@
                },
            },
            forall|u: Seq<char>|
                u != user_id@ ==> user_lookup(final(self).user_roles@, u) == user_lookup(
                    old(self).user_roles@,
                    u,
                ),
    {
        let ghost before = self.user_roles@;
        match self.find_user(user_id) {
            Some(u) => {
                let entry = vstd::std_specs::vec::vec_index_mut(&mut self.user_roles, u);
                let ghost old_names = entry.1@;
                let ghost keep = other_role(role_name@);
                let mut kept: Vec<String> = Vec::new();
                let mut i: usize = 0;
                while i < entry.1.len()
                    invariant
                        i <= entry.1@.len(),
                        entry.1@ == old_names,
                        keep == other_role(role_name@),
                        kept@ == old_names.take(i as int).filter(keep),
                    decreases entry.1@.len() - i,
                {
                    proof {
                        assert(old_names.take(i as int + 1) =~= old_names.take(i as int).push(old_names[i as int]));
                        old_names.take(i as int).lemma_filter_push(old_names[i as int], keep);
                    }
                    if !text_eq(entry.1[i].as_str(), role_name) {
                        kept.push(entry.1[i].clone());
                    }
                    i = i + 1;
                }
                proof {
                    assert(old_names.take(old_names.len() as int) =~= old_names);
                }
                entry.1 = kept;
                proof {
                    let after = self.user_roles@;
                    lemma_user_lookup_at(before, u as int);
                    assert forall|a: int, b: int| 0 <= a < b < after.len() implies after[a].0@
                        != after[b].0@ by {
                        assert(before[a].0@ != before[b].0@);
                    }
                    lemma_user_lookup_at(after, u as int);
                    assert forall|x: Seq<char>| x != user_id@ implies user_lookup(after, x)
                        == user_lookup(before, x) by {
                        lemma_user_lookup_update(before, u as int, after[u as int], x);
                    }
                }
            },
            None => {},
        }
        Ok(())
    }
}

proof fn lemma_user_lookup_at(s: Seq<(String, Vec<String>)>, i: int)
    requires
        0 <= i < s.len(),
        forall|a: int, b: int| 0 <= a < b < s.len() ==> s[a].0@ != s[b].0@,
    ensures
        user_lookup(s, s[i].0@) == Some(s[i].1@),
    decreases s.len(),
{
    if i > 0 {
        assert(s[0].0@ != s[i].0@);
        assert(s.drop_first()[i - 1] == s[i]);
        lemma_user_lookup_at(s.drop_first(), i - 1);
    }
}

proof fn lemma_user_lookup_update(s: Seq<(String, Vec<String>)>, i: int, e: (String, Vec<String>), x: Seq<char>)
    requires
        0 <= i < s.len(),
        s[i].0@ == e.0@,
        x != e.0@,
    ensures
        user_lookup(s.update(i, e), x) == user_lookup(s, x),
    decreases s.len(),
{
    if i > 0 {
        assert(s.update(i, e).drop_first() =~= s.drop_first().update(i - 1, e));
        lemma_user_lookup_update(s.drop_first(), i - 1, e, x);
    } else {
        assert(s.update(i, e).drop_first() =~= s.drop_first());
    }
}

proof fn lemma_user_lookup_push(s: Seq<(String, Vec<String>)>, e: (String, Vec<String>), x: Seq<char>)
    requires
        forall|j: int| 0 <= j < s.len() ==> s[j].0@ != e.0@,
    ensures
        x != e.0@ ==> user_lookup(s.push(e), x) == user_lookup(s, x),
        user_lookup(s.push(e), e.0@) == Some(e.1@),
    decreases s.len(),
{
    if s.len() > 0 {
        assert(s.push(e).drop_first() =~= s.drop_first().push(e));
        assert(s.push(e)[0] == s[0]);
        assert forall|j: int| 0 <= j < s.drop_first().len() implies s.drop_first()[j].0@ != e.0@ by {
            assert(s.drop_first()[j] == s[j + 1]);
        }
        lemma_user_lookup_push(s.drop_first(), e, x);
        lemma_user_lookup_push(s.drop_first(), e, e.0@);
        if x != e.0@ {
            if s[0].0@ == x {
                assert(user_lookup(s.push(e), x) == Some(s[0].1@));
                assert(user_lookup(s, x) == Some(s[0].1@));
            } else {
                assert(user_lookup(s.push(e), x) == user_lookup(s.push(e).drop_first(), x));
                assert(user_lookup(s, x) == user_lookup(s.drop_first(), x));
            }
        }
    } else {
        assert(s.push(e).drop_first() =~= Seq::<(String, Vec<String>)>::empty());
        assert(s.push(e)[0] == e);
    }
}


/// A user holding a known role has every permission of that role, and a role with
/// `AdminAll` grants every permission.
pub proof fn lemma_role_grants_permissions(m: RbacManager, user: Seq<char>, role: Seq<char>, p: Permission)
    requires
        user_lookup(m.user_roles@, user) matches Some(names) && exists|i: int|
            0 <= i < names.len() && (#[trigger] names[i])@ == role,
        role_lookup(m.roles@, role) matches Some(r) && (r.permissions@.contains(p)
            || r.permissions@.contains(Permission::AdminAll)),
    ensures
        m.spec_has_permission(user, p),
{
    let names = user_lookup(m.user_roles@, user)->Some_0;
    let i = choose|i: int| 0 <= i < names.len() && (#[trigger] names[i])@ == role;
    assert(role_grants(m.roles@, names[i]@, p));
}

/// A user without an entry holds no permission.
pub proof fn lemma_unknown_user_denied(m: RbacManager, user: Seq<char>, p: Permission)
    requires
        user_lookup(m.user_roles@, user) is None,
    ensures
        !m.spec_has_permission(user, p),
{
}

/// After a role is taken away from a user, none of the user's role names is that role.
pub proof fn lemma_removed_role_gone(names: Seq<String>, role: Seq<char>)
    ensures
        forall|k: int| 0 <= k < without_role(names, role).len() ==> (#[trigger] without_role(names, role)[k])@ != role,
{
    let keep = other_role(role);
    assert forall|k: int| 0 <= k < without_role(names, role).len() implies (#[trigger] without_role(names, role)[k])@ != role by {
        names.lemma_filter_pred(keep, k);
    }
}


/// Whether one of the role names grants `p` under the role table `roles`.
pub open spec fn grants_any(roles: Seq<Role>, names: Seq<String>, p: Permission) -> bool {
    exists|i: int| 0 <= i < names.len() && role_grants(roles, (#[trigger] names[i])@, p)
}

proof fn lemma_filter_keeps_all(names: Seq<String>, role: Seq<char>)
    requires
        forall|k: int| 0 <= k < names.len() ==> (#[trigger] names[k])@ != role,
    ensures
        without_role(names, role) == names,
    decreases names.len(),
{
    reveal(Seq::filter);
    if names.len() > 0 {
        lemma_filter_keeps_all(names.drop_last(), role);
        assert(names.drop_last().push(names.last()) =~= names);
    }
}

/// Removing a role right after assigning it to a user who did not hold it gives
/// back the user's role names, in order, and so the same permissions under any
/// role table: `before` are the names held before, `assigned` those after the
/// assignment (as `assign_role` states them) and `after` those after the removal
/// (as `remove_role` states them).
pub proof fn lemma_remove_undoes_assign(
    before: Seq<String>,
    assigned: Seq<String>,
    after: Seq<String>,
    role: Seq<char>,
    roles: Seq<Role>,
)
    requires
        forall|k: int| 0 <= k < before.len() ==> (#[trigger] before[k])@ != role,
        assigned.len() == before.len() + 1,
        forall|k: int| 0 <= k < before.len() ==> (#[trigger] assigned[k])@ == before[k]@,
        assigned[before.len() as int]@ == role,
        after.len() == without_role(assigned, role).len(),
        forall|k: int| 0 <= k < after.len() ==> (#[trigger] after[k])@ == without_role(assigned, role)[k]@,
    ensures
        after.map_values(|s: String| s@) == before.map_values(|s: String| s@),
        forall|p: Permission| #[trigger] grants_any(roles, after, p) == grants_any(roles, before, p),
{
    let d = assigned.drop_last();
    assert forall|k: int| 0 <= k < d.len() implies (#[trigger] d[k])@ != role by {
        assert(d[k] == assigned[k]);
    }
    lemma_filter_keeps_all(d, role);
    reveal(Seq::filter);
    assert(assigned.filter(other_role(role)) == d.filter(other_role(role)));
    assert(after.map_values(|s: String| s@) =~= before.map_values(|s: String| s@));
    assert forall|p: Permission| #[trigger] grants_any(roles, after, p) == grants_any(roles, before, p) by {
        if exists|i: int| 0 <= i < after.len() && role_grants(roles, (#[trigger] after[i])@, p) {
            let i = choose|i: int| 0 <= i < after.len() && role_grants(roles, (#[trigger] after[i])@, p);
            assert(after[i]@ == before[i]@);
        }
        if exists|i: int| 0 <= i < before.len() && role_grants(roles, (#[trigger] before[i])@, p) {
            let i = choose|i: int| 0 <= i < before.len() && role_grants(roles, (#[trigger] before[i])@, p);
            assert(after[i]@ == before[i]@);
        }
    }
}

} // verus!
