//! User accounts and service selections.
use vstd::prelude::*;

use super::settings::{Password, Shell, Username};
use crate::text::{owned, str_eq};

verus! {

/// OpenRC runlevel membership.
#[derive(Debug, Clone, PartialEq, Eq)]
pub struct OpenrcServices {
    pub boot: Vec<String>,
    pub default: Vec<String>,
}

impl Default for OpenrcServices {
    fn default() -> (r: Self)
        ensures
            r.boot@.len() == 0,
            r.default@.len() == 0,
    {
        OpenrcServices { boot: Vec::new(), default: Vec::new() }
    }
}

#[derive(Debug, Clone, PartialEq, Eq)]
pub struct Services {
    pub enabled: Vec<String>,
    pub disabled: Vec<String>,
    pub openrc: OpenrcServices,
}

impl Default for Services {
    fn default() -> (r: Self)
        ensures
            r.enabled@.len() == 0,
            r.disabled@.len() == 0,
            r.openrc.boot@.len() == 0,
            r.openrc.default@.len() == 0,
    {
        Services { enabled: Vec::new(), disabled: Vec::new(), openrc: OpenrcServices::default() }
    }
}

#[derive(Debug, Clone, PartialEq, Eq)]
pub struct User {
    pub name: Username,
    pub groups: Vec<String>,
    pub shell: Shell,
    pub password: Password,
}

/// The names of a list of strings.
pub open spec fn views(v: Seq<String>) -> Seq<Seq<char>> {
    v.map_values(|s: String| s@)
}

/// The user belongs to the `wheel` group.
pub open spec fn in_wheel(groups: Seq<String>) -> bool {
    exists|i: int| 0 <= i < groups.len() && groups[i]@ == "wheel"@
}

impl User {
    /// A new account with a fixed name, no supplementary groups, the default
    /// shell, and a locked password.
    pub fn new(name: &str) -> (r: Self)
        ensures
            r.name matches Username::Literal(s) && s@ == name@,
            r.groups@.len() == 0,
            r.shell == Shell::Bash,
            r.password == Password::Locked,
    {
        User {
            name: Username::Literal(owned(name)),
            groups: Vec::new(),
            shell: Shell::default(),
            password: Password::default(),
        }
    }

    /// A new account whose name is collected interactively at install time.
    pub fn prompt() -> (r: Self)
        ensures
            r.name == Username::Prompt,
            r.groups@.len() == 0,
            r.shell == Shell::Bash,
            r.password == Password::Locked,
    {
        User {
            name: Username::Prompt,
            groups: Vec::new(),
            shell: Shell::default(),
            password: Password::default(),
        }
    }

    /// Replaces the supplementary groups.
    pub fn groups<const N: usize>(self, groups: [&str; N]) -> (r: Self)
        ensures
            views(r.groups@) == groups@.map_values(|g: &str| g@),
            r.name == self.name,
            r.shell == self.shell,
            r.password == self.password,
    {
        let mut out: Vec<String> = Vec::new();
        let mut i: usize = 0;
        while i < N
            invariant
                i <= N,
                N == groups@.len(),
                out@.len() == i,
                forall|k: int| 0 <= k < i ==> #[trigger] out@[k]@ == groups@[k]@,
            decreases N - i,
        {
            out.push(owned(groups[i]));
            i = i + 1;
        }
        assert(views(out@) =~= groups@.map_values(|g: &str| g@));
        User { name: self.name, groups: out, shell: self.shell, password: self.password }
    }

    /// Adds the user to `wheel` unless already a member; other groups are kept.
    pub fn wheel(self) -> (r: Self)
        ensures
            views(r.groups@) == if in_wheel(self.groups@) {
                views(self.groups@)
            } else {
                views(self.groups@).push("wheel"@)
            },
            r.name == self.name,
            r.shell == self.shell,
            r.password == self.password,
    {
        let member = self.is_wheel();
        let mut user = self;
        if !member {
            user.groups.push(owned("wheel"));
            assert(views(user.groups@) =~= views(self.groups@).push("wheel"@));
        }
        user
    }

    /// Sets the login shell.
    pub fn shell(self, shell: Shell) -> (r: Self)
        ensures
            r.shell == shell,
            r.name == self.name,
            r.groups == self.groups,
            r.password == self.password,
    {
        User { shell, ..self }
    }

    /// Sets how the password is provisioned.
    pub fn password(self, password: Password) -> (r: Self)
        ensures
            r.password == password,
            r.name == self.name,
            r.groups == self.groups,
            r.shell == self.shell,
    {
        User { password, ..self }
    }

    /// True when the user belongs to `wheel` and receives sudo.
    pub fn is_wheel(&self) -> (r: bool)
        ensures
            r == in_wheel(self.groups@),
    {
        let mut i: usize = 0;
        while i < self.groups.len()
            invariant
                i <= self.groups@.len(),
                forall|k: int| 0 <= k < i ==> self.groups@[k]@ != "wheel"@,
            decreases self.groups.len() - i,
        {
            if str_eq(self.groups[i].as_str(), "wheel") {
                return true;
            }
            i = i + 1;
        }
        false
    }
}

impl Default for User {
    fn default() -> (r: Self)
        ensures
            r.name matches Username::Literal(s) && s@.len() == 0,
            r.groups@.len() == 0,
            r.shell == Shell::Bash,
            r.password == Password::Locked,
    {
        User {
            name: Username::default(),
            groups: Vec::new(),
            shell: Shell::default(),
            password: Password::default(),
        }
    }
}

} // verus!
