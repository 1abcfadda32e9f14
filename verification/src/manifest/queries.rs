//! Questions asked of a manifest before it is installed or compiled.
use vstd::prelude::*;

use super::settings::{username_text, Bootloader, Password, Timezone, Username};
use super::{SystemManifest, User};
use crate::text::{push_str, string_of};

verus! {

/// The boot manager to install: the declared one, or GRUB.
pub open spec fn bootloader_of(m: SystemManifest) -> Bootloader {
    match m.bootloader {
        Some(b) => b,
        None => Bootloader::Grub,
    }
}

pub open spec fn prompts_password(u: User) -> bool {
    u.password is Prompt
}

pub open spec fn prompts_name(u: User) -> bool {
    u.name is Prompt
}

pub open spec fn plain_password(u: User) -> bool {
    u.password is Plain
}

/// Names of the users whose password is collected at install time.
pub open spec fn password_prompt_names(us: Seq<User>) -> Seq<Seq<char>>
    decreases us.len(),
{
    if us.len() == 0 {
        Seq::empty()
    } else {
        password_prompt_names(us.drop_last()) + if prompts_password(us.last()) {
            seq![username_text(us.last().name)]
        } else {
            Seq::empty()
        }
    }
}

/// Indices of the users whose name is collected at install time.
pub open spec fn name_prompt_indices(us: Seq<User>) -> Seq<int>
    decreases us.len(),
{
    if us.len() == 0 {
        Seq::empty()
    } else {
        name_prompt_indices(us.drop_last()) + if prompts_name(us.last()) {
            seq![us.len() - 1]
        } else {
            Seq::empty()
        }
    }
}

pub open spec fn plain_password_warning(name: Seq<char>) -> Seq<char> {
    "user '"@ + name
        + "' uses Password::Plain — the plaintext is stored in manifest.toml; prefer Password::Hashed or Password::Prompt"@
}

/// One warning per user with a plaintext password.
pub open spec fn password_warning_lines(us: Seq<User>) -> Seq<Seq<char>>
    decreases us.len(),
{
    if us.len() == 0 {
        Seq::empty()
    } else {
        password_warning_lines(us.drop_last()) + if plain_password(us.last()) {
            seq![plain_password_warning(username_text(us.last().name))]
        } else {
            Seq::empty()
        }
    }
}

impl SystemManifest {
    /// Boot manager to install, applying the default when the manifest leaves
    /// it unset.
    pub fn resolved_bootloader(&self) -> (r: Bootloader)
        ensures
            r == bootloader_of(*self),
    {
        match self.bootloader {
            Some(b) => b,
            None => Bootloader::default(),
        }
    }

    /// Names of users whose password must be collected interactively at
    /// install time because they declared `Password::Prompt`.
    pub fn prompt_users(&self) -> (r: Vec<&str>)
        ensures
            r@.map_values(|s: &str| s@) == password_prompt_names(self.users@),
    {
        let mut out: Vec<&str> = Vec::new();
        let mut i: usize = 0;
        while i < self.users.len()
            invariant
                i <= self.users.len(),
                out@.map_values(|s: &str| s@) == password_prompt_names(self.users@.subrange(0, i as int)),
            decreases self.users.len() - i,
        {
            let ghost sub = self.users@.subrange(0, i + 1);
            proof {
                assert(sub.drop_last() =~= self.users@.subrange(0, i as int));
                assert(sub.last() == self.users@[i as int]);
            }
            let ghost before = out@.map_values(|s: &str| s@);
            if matches!(self.users[i].password, Password::Prompt) {
                out.push(self.users[i].name.as_str());
                assert(out@.map_values(|s: &str| s@) =~= before.push(username_text(self.users@[i as int].name)));
            } else {
                assert(before + Seq::<Seq<char>>::empty() =~= before);
            }
            i = i + 1;
        }
        assert(self.users@.subrange(0, self.users.len() as int) =~= self.users@);
        out
    }

    /// Indices of users whose name must be collected interactively at install
    /// time because they declared `Username::Prompt`.
    pub fn prompt_usernames(&self) -> (r: Vec<usize>)
        ensures
            r@.map_values(|i: usize| i as int) == name_prompt_indices(self.users@),
    {
        let mut out: Vec<usize> = Vec::new();
        let mut i: usize = 0;
        while i < self.users.len()
            invariant
                i <= self.users.len(),
                out@.map_values(|i: usize| i as int) == name_prompt_indices(self.users@.subrange(0, i as int)),
            decreases self.users.len() - i,
        {
            let ghost sub = self.users@.subrange(0, i + 1);
            proof {
                assert(sub.drop_last() =~= self.users@.subrange(0, i as int));
                assert(sub.last() == self.users@[i as int]);
            }
            let ghost before = out@.map_values(|i: usize| i as int);
            if matches!(self.users[i].name, Username::Prompt) {
                out.push(i);
                assert(out@.map_values(|i: usize| i as int) =~= before.push(i as int));
            } else {
                assert(before + Seq::<int>::empty() =~= before);
            }
            i = i + 1;
        }
        assert(self.users@.subrange(0, self.users.len() as int) =~= self.users@);
        out
    }

    /// True when the timezone must be collected interactively at install
    /// time because the config declared `Timezone::Prompt`.
    pub fn prompts_timezone(&self) -> (r: bool)
        ensures
            r == (self.os.timezone is Prompt),
    {
        matches!(self.os.timezone, Timezone::Prompt)
    }

    /// Warnings about insecure password declarations, surfaced when the
    /// config is compiled so plaintext secrets do not slip into the compiled
    /// manifest unnoticed.
    pub fn password_warnings(&self) -> (r: Vec<String>)
        ensures
            r@.map_values(|s: String| s@) == password_warning_lines(self.users@),
    {
        let mut out: Vec<String> = Vec::new();
        let mut i: usize = 0;
        while i < self.users.len()
            invariant
                i <= self.users.len(),
                out@.map_values(|s: String| s@) == password_warning_lines(self.users@.subrange(0, i as int)),
            decreases self.users.len() - i,
        {
            let ghost sub = self.users@.subrange(0, i + 1);
            proof {
                assert(sub.drop_last() =~= self.users@.subrange(0, i as int));
                assert(sub.last() == self.users@[i as int]);
            }
            let ghost before = out@.map_values(|s: String| s@);
            if matches!(self.users[i].password, Password::Plain(_)) {
                let mut v: Vec<char> = Vec::new();
                push_str(&mut v, "user '");
                push_str(&mut v, self.users[i].name.as_str());
                push_str(
                    &mut v,
                    "' uses Password::Plain — the plaintext is stored in manifest.toml; prefer Password::Hashed or Password::Prompt",
                );
                let w = string_of(&v);
                out.push(w);
                assert(out@.map_values(|s: String| s@) =~= before.push(
                    plain_password_warning(username_text(self.users@[i as int].name)),
                ));
            } else {
                assert(before + Seq::<Seq<char>>::empty() =~= before);
            }
            i = i + 1;
        }
        assert(self.users@.subrange(0, self.users.len() as int) =~= self.users@);
        out
    }
}

} // verus!
