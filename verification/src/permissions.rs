//! The permission model: per-tool permission records and the registry
//! that evaluates a tool, its arguments and its paths against them.

use vstd::prelude::*;
use vstd::string::*;
use crate::error::{SandboxError, SandboxResult};
use crate::keyed::{
    Keyed, find_index, lemma_lookup_push, lemma_lookup_update, lemma_unique_push,
    lemma_unique_update, lookup, unique_keys,
};
use crate::strutil::{path_prefix, spec_contains, spec_path_prefix, str_contains, str_eq, views};

verus! {

/// Permission level for a tool.
#[derive(Debug, Clone, Copy, PartialEq, Eq, Structural)]
pub enum PermissionLevel {
    /// No access.
    Denied,
    /// Read-only access.
    ReadOnly,
    /// Read and execute.
    Execute,
    /// Full access.
    Full,
}

impl Default for PermissionLevel {
    fn default() -> (r: Self)
        ensures
            r == PermissionLevel::Denied,
    {
        PermissionLevel::Denied
    }
}

/// Tool permission configuration. Empty `allowed_paths` or `allowed_args`
/// mean "no restriction", not "deny all"; `denied_paths` always wins.
#[derive(Debug, Clone)]
pub struct ToolPermission {
    pub name: String,
    pub level: PermissionLevel,
    pub allowed_paths: Vec<String>,
    pub denied_paths: Vec<String>,
    pub allowed_args: Vec<String>,
    pub requires_approval: bool,
}

impl Keyed for ToolPermission {
    open spec fn spec_key(&self) -> Seq<char> {
        self.name@
    }

    fn key(&self) -> (k: &str) {
        self.name.as_str()
    }
}

impl ToolPermission {
    pub fn new(name: &str) -> (r: Self)
        ensures
            r.name@ == name@,
            r.level == PermissionLevel::Denied,
            r.allowed_paths@.len() == 0,
            r.denied_paths@.len() == 0,
            r.allowed_args@.len() == 0,
            r.requires_approval == false,
    {
        ToolPermission {
            name: name.to_owned(),
            level: PermissionLevel::default(),
            allowed_paths: Vec::new(),
            denied_paths: Vec::new(),
            allowed_args: Vec::new(),
            requires_approval: false,
        }
    }

    pub fn with_level(self, level: PermissionLevel) -> (r: Self)
        ensures
            r == (ToolPermission { level, ..self }),
    {
        ToolPermission { level, ..self }
    }

    pub fn allow_path(self, path: String) -> (r: Self)
        ensures
            r == (ToolPermission { allowed_paths: r.allowed_paths, ..self }),
            r.allowed_paths@ == self.allowed_paths@.push(path),
    {
        let mut s = self;
        s.allowed_paths.push(path);
        s
    }

    pub fn deny_path(self, path: String) -> (r: Self)
        ensures
            r == (ToolPermission { denied_paths: r.denied_paths, ..self }),
            r.denied_paths@ == self.denied_paths@.push(path),
    {
        let mut s = self;
        s.denied_paths.push(path);
        s
    }

    pub fn allow_arg(self, arg: &str) -> (r: Self)
        ensures
            r == (ToolPermission { allowed_args: r.allowed_args, ..self }),
            r.allowed_args@.len() == self.allowed_args@.len() + 1,
            views(r.allowed_args@) == views(self.allowed_args@).push(arg@),
    {
        let mut s = self;
        s.allowed_args.push(arg.to_owned());
        proof {
            assert(views(s.allowed_args@) =~= views(self.allowed_args@).push(arg@));
        }
        s
    }

    pub fn requires_approval(self) -> (r: Self)
        ensures
            r == (ToolPermission { requires_approval: true, ..self }),
    {
        ToolPermission { requires_approval: true, ..self }
    }

    /// `arg` matches the pattern exactly or holds it as a substring.
    pub open spec fn spec_arg_matches(arg: Seq<char>, pat: Seq<char>) -> bool {
        arg == pat || spec_contains(arg, pat)
    }

    /// Some allowed entry matches `arg`.
    pub open spec fn spec_arg_allowed(arg: Seq<char>, allowed: Seq<Seq<char>>) -> bool {
        exists|j: int| 0 <= j < allowed.len() && Self::spec_arg_matches(arg, #[trigger] allowed[j])
    }

    /// The argument check: vacuously true on an empty allow-list, else some
    /// submitted argument must match some allowed entry.
    pub open spec fn spec_check_args(&self, args: Seq<Seq<char>>) -> bool {
        self.allowed_args@.len() == 0 || exists|i: int|
            0 <= i < args.len() && Self::spec_arg_allowed(
                #[trigger] args[i],
                views(self.allowed_args@),
            )
    }

    /// Check if this tool is allowed to run with the given arguments.
    pub fn check_args(&self, args: &Vec<String>) -> (r: bool)
        ensures
            r == self.spec_check_args(views(args@)),
    {
        if self.allowed_args.len() == 0 {
            return true;
        }
        let n = args.len();
        let mut i: usize = 0;
        while i < n
            invariant
                n == args@.len(),
                i <= n,
                forall|p: int|
                    0 <= p < i ==> !Self::spec_arg_allowed(
                        #[trigger] views(args@)[p],
                        views(self.allowed_args@),
                    ),
            decreases n - i,
        {
            let m = self.allowed_args.len();
            let mut j: usize = 0;
            while j < m
                invariant
                    n == args@.len(),
                    m == self.allowed_args@.len(),
                    i < n,
                    j <= m,
                    forall|q: int|
                        0 <= q < j ==> !Self::spec_arg_matches(
                            views(args@)[i as int],
                            #[trigger] views(self.allowed_args@)[q],
                        ),
                decreases m - j,
            {
                let matched = {
                    let a = &args[i];
                    let pat = &self.allowed_args[j];
                    str_eq(a.as_str(), pat.as_str()) || str_contains(a.as_str(), pat.as_str())
                };
                if matched {
                    proof {
                        assert(Self::spec_arg_matches(
                            views(args@)[i as int],
                            views(self.allowed_args@)[j as int],
                        ));
                        assert(Self::spec_arg_allowed(
                            views(args@)[i as int],
                            views(self.allowed_args@),
                        ));
                    }
                    return true;
                }
                j = j + 1;
            }
            i = i + 1;
        }
        false
    }

    /// Some denied entry is a component prefix of `path`.
    pub open spec fn spec_path_denied(&self, path: Seq<char>) -> bool {
        exists|i: int|
            0 <= i < self.denied_paths@.len() && spec_path_prefix(
                #[trigger] views(self.denied_paths@)[i],
                path,
            )
    }

    /// The allow-list accepts `path`: it is empty, or some entry is a
    /// component prefix of `path`.
    pub open spec fn spec_path_allowed(&self, path: Seq<char>) -> bool {
        self.allowed_paths@.len() == 0 || exists|i: int|
            0 <= i < self.allowed_paths@.len() && spec_path_prefix(
                #[trigger] views(self.allowed_paths@)[i],
                path,
            )
    }

    /// The path check: a denied prefix rejects unconditionally; otherwise
    /// the allow-list decides.
    pub open spec fn spec_check_path(&self, path: Seq<char>) -> bool {
        !self.spec_path_denied(path) && self.spec_path_allowed(path)
    }

    /// Check if a path is allowed.
    pub fn check_path(&self, path: &str) -> (r: bool)
        ensures
            r == self.spec_check_path(path@),
    {
        let dn = self.denied_paths.len();
        let mut i: usize = 0;
        while i < dn
            invariant
                dn == self.denied_paths@.len(),
                i <= dn,
                forall|p: int|
                    0 <= p < i ==> !spec_path_prefix(#[trigger] views(self.denied_paths@)[p], path@),
            decreases dn - i,
        {
            if path_prefix(self.denied_paths[i].as_str(), path) {
                proof {
                    assert(views(self.denied_paths@)[i as int] == self.denied_paths@[i as int]@);
                    assert(self.spec_path_denied(path@));
                }
                return false;
            }
            i = i + 1;
        }
        let an = self.allowed_paths.len();
        if an == 0 {
            return true;
        }
        let mut j: usize = 0;
        while j < an
            invariant
                an == self.allowed_paths@.len(),
                j <= an,
                !self.spec_path_denied(path@),
                forall|p: int|
                    0 <= p < j ==> !spec_path_prefix(
                        #[trigger] views(self.allowed_paths@)[p],
                        path@,
                    ),
            decreases an - j,
        {
            if path_prefix(self.allowed_paths[j].as_str(), path) {
                proof {
                    assert(views(self.allowed_paths@)[j as int] == self.allowed_paths@[j as int]@);
                    assert(self.spec_path_allowed(path@));
                }
                return true;
            }
            j = j + 1;
        }
        false
    }
}

/// A denied path prefix overrides any allowance for the same path, however
/// the record was built.
pub proof fn lemma_denied_path_overrides(p: &ToolPermission, path: Seq<char>)
    requires
        p.spec_path_denied(path),
    ensures
        !p.spec_check_path(path),
{
}

/// Permission gate for tools: a registry of permission records, and a
/// default for tools it does not know.
#[derive(Debug, Clone)]
pub struct PermissionGate {
    pub permissions: Vec<ToolPermission>,
    pub default_level: PermissionLevel,
    pub allow_unknown: bool,
}

impl PermissionGate {
    /// The registry never holds two records under one name.
    pub open spec fn wf(&self) -> bool {
        unique_keys(self.permissions@)
    }

    /// The record registered under `name`, if any.
    pub open spec fn spec_get(&self, name: Seq<char>) -> Option<ToolPermission> {
        lookup(self.permissions@, name)
    }

    pub open spec fn spec_registry(&self) -> Seq<ToolPermission> {
        self.permissions@
    }

    pub open spec fn spec_default_level(&self) -> PermissionLevel {
        self.default_level
    }

    pub open spec fn spec_allow_unknown(&self) -> bool {
        self.allow_unknown
    }

    pub fn new() -> (r: Self)
        ensures
            r.wf(),
            r.spec_registry().len() == 0,
            r.spec_default_level() == PermissionLevel::Execute,
            r.spec_allow_unknown() == false,
    {
        PermissionGate {
            permissions: Vec::new(),
            default_level: PermissionLevel::Execute,
            allow_unknown: false,
        }
    }

    /// What the seeded registry promises of the version-control tool.
    pub open spec fn spec_seed_git(&self) -> bool {
        self.spec_get("git"@) matches Some(p) && ({
            &&& p.level == PermissionLevel::Full
            &&& views(p.allowed_paths@) == seq!["/"@]
            &&& p.denied_paths@.len() == 0
            &&& views(p.allowed_args@) == seq![
                "status"@,
                "diff"@,
                "log"@,
                "add"@,
                "commit"@,
                "push"@,
                "pull"@,
            ]
            &&& p.requires_approval
        })
    }

    /// What the seeded registry promises of one package manager.
    pub open spec fn spec_seed_package_tool(&self, name: Seq<char>) -> bool {
        self.spec_get(name) matches Some(p) && ({
            &&& p.level == PermissionLevel::Execute
            &&& views(p.allowed_paths@) == seq!["/"@]
            &&& p.denied_paths@.len() == 0
            &&& views(p.allowed_args@) == seq!["install"@, "run"@, "test"@, "build"@]
            &&& !p.requires_approval
        })
    }

    /// What the seeded registry promises of one file-operation tool.
    pub open spec fn spec_seed_file_tool(&self, name: Seq<char>, level: PermissionLevel) -> bool {
        self.spec_get(name) matches Some(p) && ({
            &&& p.level == level
            &&& views(p.allowed_paths@) == seq!["/"@]
            &&& p.denied_paths@.len() == 0
            &&& p.allowed_args@.len() == 0
            &&& !p.requires_approval
        })
    }

    /// What the seeded registry promises of the network client.
    pub open spec fn spec_seed_curl(&self) -> bool {
        self.spec_get("curl"@) matches Some(p) && ({
            &&& p.level == PermissionLevel::ReadOnly
            &&& p.allowed_paths@.len() == 0
            &&& p.denied_paths@.len() == 0
            &&& views(p.allowed_args@) == seq!["-X GET"@, "-X HEAD"@]
            &&& !p.requires_approval
        })
    }

    /// What the seeded registry promises of the recursive-delete tool.
    pub open spec fn spec_seed_rm(&self) -> bool {
        self.spec_get("rm"@) matches Some(p) && ({
            &&& p.level == PermissionLevel::Execute
            &&& views(p.allowed_paths@) == seq!["/tmp"@]
            &&& p.denied_paths@.len() == 0
            &&& p.allowed_args@.len() == 0
            &&& p.requires_approval
        })
    }

    /// What the seeded registry promises of the elevation command.
    pub open spec fn spec_seed_sudo(&self) -> bool {
        self.spec_get("sudo"@) matches Some(p) && ({
            &&& p.level == PermissionLevel::Denied
            &&& p.allowed_paths@.len() == 0
            &&& p.denied_paths@.len() == 0
            &&& p.allowed_args@.len() == 0
            &&& !p.requires_approval
        })
    }

    /// What the seeded registry promises of the permission-change tool.
    pub open spec fn spec_seed_chmod(&self) -> bool {
        self.spec_get("chmod"@) matches Some(p) && ({
            &&& p.level == PermissionLevel::Execute
            &&& p.allowed_paths@.len() == 0
            &&& p.denied_paths@.len() == 0
            &&& p.allowed_args@.len() == 0
            &&& p.requires_approval
        })
    }

    /// The whole seeded registry: well-known risky tools denied or gated
    /// behind approval, version-control and package managers scoped to a
    /// conservative argument allow-list.
    pub open spec fn spec_default_seed(&self) -> bool {
        &&& self.spec_seed_git()
        &&& self.spec_seed_package_tool("npm"@)
        &&& self.spec_seed_package_tool("yarn"@)
        &&& self.spec_seed_file_tool("file_read"@, PermissionLevel::ReadOnly)
        &&& self.spec_seed_file_tool("file_write"@, PermissionLevel::Execute)
        &&& self.spec_seed_curl()
        &&& self.spec_seed_rm()
        &&& self.spec_seed_sudo()
        &&& self.spec_seed_chmod()
    }

    /// Create a permission gate with default settings.
    pub fn default_permissions() -> (r: Self)
        ensures
            r.wf(),
            r.spec_registry().len() == 9,
            r.spec_default_level() == PermissionLevel::Execute,
            r.spec_allow_unknown() == false,
            r.spec_default_seed(),
    {
        proof {
            reveal_strlit("git");
            reveal_strlit("npm");
            reveal_strlit("yarn");
            reveal_strlit("file_read");
            reveal_strlit("file_write");
            reveal_strlit("curl");
            reveal_strlit("rm");
            reveal_strlit("sudo");
            reveal_strlit("chmod");
            assert("git"@.len() == 3 && "npm"@.len() == 3 && "yarn"@.len() == 4 && "file_read"@.len()
                == 9 && "file_write"@.len() == 10 && "curl"@.len() == 4 && "rm"@.len() == 2
                && "sudo"@.len() == 4 && "chmod"@.len() == 5);
            assert("git"@[0] == 'g' && "npm"@[0] == 'n' && "git"@ != "npm"@);
            assert("yarn"@[0] == 'y' && "curl"@[0] == 'c' && "sudo"@[0] == 's');
            assert("yarn"@ != "curl"@ && "yarn"@ != "sudo"@ && "curl"@ != "sudo"@);
        }
        let mut gate = Self::new();

        let git = ToolPermission::new("git").with_level(PermissionLevel::Full).allow_path(
            "/".to_owned(),
        ).allow_arg("status").allow_arg("diff").allow_arg("log").allow_arg("add").allow_arg(
            "commit",
        ).allow_arg("push").allow_arg("pull").requires_approval();
        proof {
            assert(views(git.allowed_paths@) =~= seq!["/"@]);
            assert(views(git.allowed_args@) =~= seq![
                "status"@,
                "diff"@,
                "log"@,
                "add"@,
                "commit"@,
                "push"@,
                "pull"@,
            ]);
        }
        gate.register_tool(git);
        proof {
            assert(gate.spec_registry().len() == 1);
            assert(gate.spec_get("npm"@) is None);
            assert(gate.spec_get("yarn"@) is None);
            assert(gate.spec_get("file_read"@) is None);
            assert(gate.spec_get("file_write"@) is None);
            assert(gate.spec_get("curl"@) is None);
            assert(gate.spec_get("rm"@) is None);
            assert(gate.spec_get("sudo"@) is None);
            assert(gate.spec_get("chmod"@) is None);
            assert(gate.spec_get("git"@) == Some(git));
        }

        let npm = ToolPermission::new("npm").with_level(PermissionLevel::Execute).allow_path(
            "/".to_owned(),
        ).allow_arg("install").allow_arg("run").allow_arg("test").allow_arg("build");
        proof {
            assert(views(npm.allowed_paths@) =~= seq!["/"@]);
            assert(views(npm.allowed_args@) =~= seq!["install"@, "run"@, "test"@, "build"@]);
        }
        gate.register_tool(npm);
        proof {
            assert(gate.spec_registry().len() == 2);
            assert(gate.spec_get("yarn"@) is None);
            assert(gate.spec_get("file_read"@) is None);
            assert(gate.spec_get("file_write"@) is None);
            assert(gate.spec_get("curl"@) is None);
            assert(gate.spec_get("rm"@) is None);
            assert(gate.spec_get("sudo"@) is None);
            assert(gate.spec_get("chmod"@) is None);
            assert(gate.spec_get("git"@) == Some(git));
            assert(gate.spec_get("npm"@) == Some(npm));
        }

        let yarn = ToolPermission::new("yarn").with_level(PermissionLevel::Execute).allow_path(
            "/".to_owned(),
        ).allow_arg("install").allow_arg("run").allow_arg("test").allow_arg("build");
        proof {
            assert(views(yarn.allowed_paths@) =~= seq!["/"@]);
            assert(views(yarn.allowed_args@) =~= seq!["install"@, "run"@, "test"@, "build"@]);
        }
        gate.register_tool(yarn);
        proof {
            assert(gate.spec_registry().len() == 3);
            assert(gate.spec_get("file_read"@) is None);
            assert(gate.spec_get("file_write"@) is None);
            assert(gate.spec_get("curl"@) is None);
            assert(gate.spec_get("rm"@) is None);
            assert(gate.spec_get("sudo"@) is None);
            assert(gate.spec_get("chmod"@) is None);
            assert(gate.spec_get("git"@) == Some(git));
            assert(gate.spec_get("npm"@) == Some(npm));
            assert(gate.spec_get("yarn"@) == Some(yarn));
        }

        let file_read = ToolPermission::new("file_read").with_level(
            PermissionLevel::ReadOnly,
        ).allow_path("/".to_owned());
        proof {
            assert(views(file_read.allowed_paths@) =~= seq!["/"@]);
        }
        gate.register_tool(file_read);
        proof {
            assert(gate.spec_registry().len() == 4);
            assert(gate.spec_get("file_write"@) is None);
            assert(gate.spec_get("curl"@) is None);
            assert(gate.spec_get("rm"@) is None);
            assert(gate.spec_get("sudo"@) is None);
            assert(gate.spec_get("chmod"@) is None);
            assert(gate.spec_get("git"@) == Some(git));
            assert(gate.spec_get("npm"@) == Some(npm));
            assert(gate.spec_get("yarn"@) == Some(yarn));
            assert(gate.spec_get("file_read"@) == Some(file_read));
        }

        let file_write = ToolPermission::new("file_write").with_level(
            PermissionLevel::Execute,
        ).allow_path("/".to_owned());
        proof {
            assert(views(file_write.allowed_paths@) =~= seq!["/"@]);
        }
        gate.register_tool(file_write);
        proof {
            assert(gate.spec_registry().len() == 5);
            assert(gate.spec_get("curl"@) is None);
            assert(gate.spec_get("rm"@) is None);
            assert(gate.spec_get("sudo"@) is None);
            assert(gate.spec_get("chmod"@) is None);
            assert(gate.spec_get("git"@) == Some(git));
            assert(gate.spec_get("npm"@) == Some(npm));
            assert(gate.spec_get("yarn"@) == Some(yarn));
            assert(gate.spec_get("file_read"@) == Some(file_read));
            assert(gate.spec_get("file_write"@) == Some(file_write));
        }

        let curl = ToolPermission::new("curl").with_level(PermissionLevel::ReadOnly).allow_arg(
            "-X GET",
        ).allow_arg("-X HEAD");
        proof {
            assert(views(curl.allowed_args@) =~= seq!["-X GET"@, "-X HEAD"@]);
        }
        gate.register_tool(curl);
        proof {
            assert(gate.spec_registry().len() == 6);
            assert(gate.spec_get("rm"@) is None);
            assert(gate.spec_get("sudo"@) is None);
            assert(gate.spec_get("chmod"@) is None);
            assert(gate.spec_get("git"@) == Some(git));
            assert(gate.spec_get("npm"@) == Some(npm));
            assert(gate.spec_get("yarn"@) == Some(yarn));
            assert(gate.spec_get("file_read"@) == Some(file_read));
            assert(gate.spec_get("file_write"@) == Some(file_write));
            assert(gate.spec_get("curl"@) == Some(curl));
        }

        let rm = ToolPermission::new("rm").with_level(PermissionLevel::Execute).allow_path(
            "/tmp".to_owned(),
        ).requires_approval();
        proof {
            assert(views(rm.allowed_paths@) =~= seq!["/tmp"@]);
        }
        gate.register_tool(rm);
        proof {
            assert(gate.spec_registry().len() == 7);
            assert(gate.spec_get("sudo"@) is None);
            assert(gate.spec_get("chmod"@) is None);
            assert(gate.spec_get("git"@) == Some(git));
            assert(gate.spec_get("npm"@) == Some(npm));
            assert(gate.spec_get("yarn"@) == Some(yarn));
            assert(gate.spec_get("file_read"@) == Some(file_read));
            assert(gate.spec_get("file_write"@) == Some(file_write));
            assert(gate.spec_get("curl"@) == Some(curl));
            assert(gate.spec_get("rm"@) == Some(rm));
        }

        let sudo = ToolPermission::new("sudo").with_level(PermissionLevel::Denied);
        gate.register_tool(sudo);
        proof {
            assert(gate.spec_registry().len() == 8);
            assert(gate.spec_get("chmod"@) is None);
            assert(gate.spec_get("git"@) == Some(git));
            assert(gate.spec_get("npm"@) == Some(npm));
            assert(gate.spec_get("yarn"@) == Some(yarn));
            assert(gate.spec_get("file_read"@) == Some(file_read));
            assert(gate.spec_get("file_write"@) == Some(file_write));
            assert(gate.spec_get("curl"@) == Some(curl));
            assert(gate.spec_get("rm"@) == Some(rm));
            assert(gate.spec_get("sudo"@) == Some(sudo));
        }

        let chmod = ToolPermission::new("chmod").with_level(
            PermissionLevel::Execute,
        ).requires_approval();
        gate.register_tool(chmod);
        proof {
            assert(gate.spec_registry().len() == 9);
            assert(gate.spec_get("git"@) == Some(git));
            assert(gate.spec_get("npm"@) == Some(npm));
            assert(gate.spec_get("yarn"@) == Some(yarn));
            assert(gate.spec_get("file_read"@) == Some(file_read));
            assert(gate.spec_get("file_write"@) == Some(file_write));
            assert(gate.spec_get("curl"@) == Some(curl));
            assert(gate.spec_get("rm"@) == Some(rm));
            assert(gate.spec_get("sudo"@) == Some(sudo));
            assert(gate.spec_get("chmod"@) == Some(chmod));
        }

        gate
    }

    /// Register a tool with the permission gate; a record already held
    /// under the same name is replaced.
    pub fn register_tool(&mut self, permission: ToolPermission)
        requires
            old(self).wf(),
        ensures
            final(self).wf(),
            forall|k: Seq<char>|
                #[trigger] final(self).spec_get(k) == (if k == permission.name@ {
                    Some(permission)
                } else {
                    old(self).spec_get(k)
                }),
            old(self).spec_get(permission.name@) is None ==> final(self).spec_registry() == old(
                self,
            ).spec_registry().push(permission),
            old(self).spec_get(permission.name@) is Some ==> final(self).spec_registry().len()
                == old(self).spec_registry().len(),
            final(self).spec_default_level() == old(self).spec_default_level(),
            final(self).spec_allow_unknown() == old(self).spec_allow_unknown(),
    {
        let found = find_index(&self.permissions, permission.name.as_str());
        match found {
            Some(i) => {
                proof {
                    assert forall|k: Seq<char>| true implies #[trigger] lookup(
                        self.permissions@.update(i as int, permission),
                        k,
                    ) == (if k == permission.name@ {
                        Some(permission)
                    } else {
                        lookup(self.permissions@, k)
                    }) by {
                        lemma_lookup_update(self.permissions@, i as int, permission, k);
                    }
                    lemma_unique_update(self.permissions@, i as int, permission);
                }
                self.permissions[i] = permission;
            },
            None => {
                proof {
                    assert forall|k: Seq<char>| true implies #[trigger] lookup(
                        self.permissions@.push(permission),
                        k,
                    ) == (if k == permission.name@ {
                        Some(permission)
                    } else {
                        lookup(self.permissions@, k)
                    }) by {
                        lemma_lookup_push(self.permissions@, permission, k);
                    }
                    lemma_unique_push(self.permissions@, permission);
                }
                self.permissions.push(permission);
            },
        }
    }

    /// Set the default permission level for unknown tools.
    pub fn set_default_level(&mut self, level: PermissionLevel)
        ensures
            *final(self) == (PermissionGate { default_level: level, ..*old(self) }),
    {
        self.default_level = level;
    }

    /// Allow unknown tools (not in the registry).
    pub fn allow_unknown(&mut self)
        ensures
            *final(self) == (PermissionGate { allow_unknown: true, ..*old(self) }),
    {
        self.allow_unknown = true;
    }

    /// Check if a tool is allowed: a registered tool answers with its own
    /// level, an unknown one with the default level if unknown tools are
    /// allowed, and is otherwise refused.
    pub fn check_tool(&self, tool: &str) -> (r: SandboxResult<PermissionLevel>)
        ensures
            match self.spec_get(tool@) {
                Some(p) => r == Ok::<PermissionLevel, SandboxError>(p.level),
                None => if self.spec_allow_unknown() {
                    r == Ok::<PermissionLevel, SandboxError>(self.spec_default_level())
                } else {
                    r matches Err(SandboxError::PermissionDenied(m)) && m@ == "Tool '"@ + tool@
                        + "' is not registered in the permission gate"@
                },
            },
    {
        match find_index(&self.permissions, tool) {
            Some(i) => Ok(self.permissions[i].level),
            None => {
                if self.allow_unknown {
                    Ok(self.default_level)
                } else {
                    let msg = "Tool '".to_owned().concat(tool).concat(
                        "' is not registered in the permission gate",
                    );
                    Err(SandboxError::PermissionDenied(msg))
                }
            },
        }
    }

    /// Check if a tool is allowed with specific arguments: the tool check
    /// first, then the argument allow-list of a registered tool.
    pub fn check_command(&self, tool: &str, args: &Vec<String>) -> (r: SandboxResult<
        PermissionLevel,
    >)
        ensures
            match self.spec_get(tool@) {
                Some(p) => if p.spec_check_args(views(args@)) {
                    r == Ok::<PermissionLevel, SandboxError>(p.level)
                } else {
                    r matches Err(SandboxError::PermissionDenied(m)) && m@ ==
                        "Arguments not allowed for tool '"@ + tool@ + "'"@
                },
                None => if self.spec_allow_unknown() {
                    r == Ok::<PermissionLevel, SandboxError>(self.spec_default_level())
                } else {
                    r matches Err(SandboxError::PermissionDenied(m)) && m@ == "Tool '"@ + tool@
                        + "' is not registered in the permission gate"@
                },
            },
    {
        let level = match self.check_tool(tool) {
            Ok(l) => l,
            Err(e) => {
                return Err(e);
            },
        };
        match find_index(&self.permissions, tool) {
            Some(i) => {
                if !self.permissions[i].check_args(args) {
                    let msg = "Arguments not allowed for tool '".to_owned().concat(tool).concat(
                        "'",
                    );
                    return Err(SandboxError::PermissionDenied(msg));
                }
                Ok(level)
            },
            None => Ok(level),
        }
    }

    /// Check if a tool can access a specific path: refused tools and denied
    /// levels answer `false`, a registered tool answers its path check, an
    /// allowed unknown tool answers `true`.
    pub fn check_path(&self, tool: &str, path: &str) -> (r: SandboxResult<bool>)
        ensures
            match self.spec_get(tool@) {
                Some(p) => r == Ok::<bool, SandboxError>(p.level != PermissionLevel::Denied
                    && p.spec_check_path(path@)),
                None => if self.spec_allow_unknown() {
                    r == Ok::<bool, SandboxError>(self.spec_default_level()
                        != PermissionLevel::Denied)
                } else {
                    r matches Err(SandboxError::PermissionDenied(m)) && m@ == "Tool '"@ + tool@
                        + "' is not registered in the permission gate"@
                },
            },
    {
        let level = match self.check_tool(tool) {
            Ok(l) => l,
            Err(e) => {
                return Err(e);
            },
        };
        if level == PermissionLevel::Denied {
            return Ok(false);
        }
        match find_index(&self.permissions, tool) {
            Some(i) => Ok(self.permissions[i].check_path(path)),
            None => Ok(true),
        }
    }

    /// Check if a tool requires approval; unregistered tools do not.
    pub fn requires_approval(&self, tool: &str) -> (r: bool)
        ensures
            r == match self.spec_get(tool@) {
                Some(p) => p.requires_approval,
                None => false,
            },
    {
        match find_index(&self.permissions, tool) {
            Some(i) => self.permissions[i].requires_approval,
            None => false,
        }
    }

    /// Get all registered tool names, in registration order.
    pub fn list_tools(&self) -> (r: Vec<String>)
        ensures
            r@.len() == self.spec_registry().len(),
            forall|i: int| 0 <= i < r@.len() ==> (#[trigger] r@[i])@ == self.spec_registry()[i].name@,
    {
        let mut out: Vec<String> = Vec::new();
        let n = self.permissions.len();
        let mut i: usize = 0;
        while i < n
            invariant
                n == self.permissions@.len(),
                i <= n,
                out@.len() == i,
                forall|p: int|
                    0 <= p < i ==> (#[trigger] out@[p])@ == self.permissions@[p].name@,
            decreases n - i,
        {
            out.push(self.permissions[i].name.clone());
            i = i + 1;
        }
        out
    }

    /// Get permission for a specific tool.
    pub fn get_permission(&self, tool: &str) -> (r: Option<&ToolPermission>)
        ensures
            match self.spec_get(tool@) {
                Some(p) => r matches Some(q) && *q == p,
                None => r is None,
            },
    {
        match find_index(&self.permissions, tool) {
            Some(i) => Some(&self.permissions[i]),
            None => None,
        }
    }
}

} // verus!
