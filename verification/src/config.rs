//! The workspace manifest: a declarative list of repositories with
//! their ports, health checks and platform membership.  Reading the
//! manifest file from disk happens outside; the library receives the
//! decoded values and answers the queries the command layer makes.

use vstd::prelude::*;
use vstd::string::*;
use crate::text::{clone_opt_string, clone_string_vec, opt_str_like};

verus! {

/// One repository of the workspace.
pub struct RepositoryConfig {
    pub url: String,
    pub path: String,
    pub branch: String,
    pub language: String,
    pub health_check: Option<String>,
    pub ports: Vec<String>,
    pub depends_on: Vec<String>,
    pub repo_type: Option<String>,
    pub platform: Option<String>,
    pub description: Option<String>,
}

/// One piece of auxiliary infrastructure.
pub struct InfrastructureConfig {
    pub infra_type: String,
    pub docker_image: Option<String>,
    pub ports: Vec<String>,
    pub environment: Vec<String>,
    pub health_check: Option<String>,
    pub required_version: Option<String>,
}

/// The whole manifest: named repositories and named infrastructure.
pub struct RepoManifest {
    pub repositories: Vec<(String, RepositoryConfig)>,
    pub infrastructure: Vec<(String, InfrastructureConfig)>,
}

/// A loaded workspace: its root directory and its manifest.
pub struct Config {
    pub workspace_root: String,
    pub manifest: RepoManifest,
}

/// The branch a repository defaults to when the manifest names none.
pub fn default_branch() -> (r: String)
    ensures
        r@ == "main"@,
{
    String::from_str("main")
}

/// View-level equality of two repository entries.
pub open spec fn repo_like(a: RepositoryConfig, b: RepositoryConfig) -> bool {
    &&& a.url@ == b.url@
    &&& a.path@ == b.path@
    &&& a.branch@ == b.branch@
    &&& a.language@ == b.language@
    &&& opt_str_like(a.health_check, b.health_check)
    &&& a.ports.deep_view() == b.ports.deep_view()
    &&& a.depends_on.deep_view() == b.depends_on.deep_view()
    &&& opt_str_like(a.repo_type, b.repo_type)
    &&& opt_str_like(a.platform, b.platform)
    &&& opt_str_like(a.description, b.description)
}

/// A repository entry belongs to the named platform.
pub open spec fn on_platform(p: (String, RepositoryConfig), platform: Seq<char>) -> bool {
    match p.1.platform {
        Some(pl) => pl@ == platform,
        None => false,
    }
}

impl Clone for RepositoryConfig {
    /// A field-for-field copy.
    fn clone(&self) -> (r: Self)
        ensures
            repo_like(*self, r),
    {
        RepositoryConfig {
            url: self.url.clone(),
            path: self.path.clone(),
            branch: self.branch.clone(),
            language: self.language.clone(),
            health_check: clone_opt_string(&self.health_check),
            ports: clone_string_vec(&self.ports),
            depends_on: clone_string_vec(&self.depends_on),
            repo_type: clone_opt_string(&self.repo_type),
            platform: clone_opt_string(&self.platform),
            description: clone_opt_string(&self.description),
        }
    }
}

impl Config {
    /// Every repository of the manifest, with its name, in manifest
    /// order.
    pub fn get_all_repositories(&self) -> (r: Vec<(String, RepositoryConfig)>)
        ensures
            r@.len() == self.manifest.repositories@.len(),
            forall|k: int|
                0 <= k < r@.len() ==> (#[trigger] r@[k]).0@ == self.manifest.repositories@[k].0@
                    && repo_like(self.manifest.repositories@[k].1, r@[k].1),
    {
        let mut out: Vec<(String, RepositoryConfig)> = Vec::new();
        let n = self.manifest.repositories.len();
        for i in 0..n
            invariant
                n == self.manifest.repositories.len(),
                out@.len() == i,
                forall|k: int|
                    0 <= k < i ==> (#[trigger] out@[k]).0@ == self.manifest.repositories@[k].0@
                        && repo_like(self.manifest.repositories@[k].1, out@[k].1),
        {
            let p = &self.manifest.repositories[i];
            out.push((p.0.clone(), p.1.clone()));
        }
        out
    }

    /// The repositories of one platform, or `None` when the platform
    /// has none.
    pub fn get_platform_repositories(&self, platform: &str) -> (r: Option<
        Vec<(String, RepositoryConfig)>,
    >)
        ensures
            (match r {
                None => self.manifest.repositories@.filter(
                    |p: (String, RepositoryConfig)| on_platform(p, platform@),
                ).len() == 0,
                Some(v) => {
                    let f = self.manifest.repositories@.filter(
                        |p: (String, RepositoryConfig)| on_platform(p, platform@),
                    );
                    &&& v@.len() == f.len()
                    &&& forall|k: int|
                        0 <= k < f.len() ==> (#[trigger] v@[k]).0@ == f[k].0@ && repo_like(
                            f[k].1,
                            v@[k].1,
                        )
                },
            }),
    {
        let ghost pred = |p: (String, RepositoryConfig)| on_platform(p, platform@);
        let mut out: Vec<(String, RepositoryConfig)> = Vec::new();
        let n = self.manifest.repositories.len();
        let ghost reposv = self.manifest.repositories@;
        assert(reposv.subrange(0, 0).filter(pred) =~= Seq::<(String, RepositoryConfig)>::empty());
        for i in 0..n
            invariant
                n == self.manifest.repositories.len(),
                reposv == self.manifest.repositories@,
                (pred == |p: (String, RepositoryConfig)| on_platform(p, platform@)),
                out@.len() == reposv.subrange(0, i as int).filter(pred).len(),
                forall|k: int|
                    0 <= k < out@.len() ==> (#[trigger] out@[k]).0@ == reposv.subrange(
                        0,
                        i as int,
                    ).filter(pred)[k].0@ && repo_like(
                        reposv.subrange(0, i as int).filter(pred)[k].1,
                        out@[k].1,
                    ),
        {
            let p = &self.manifest.repositories[i];
            let matches_platform = match &p.1.platform {
                Some(pl) => crate::text::str_eq(pl.as_str(), platform),
                None => false,
            };
            proof {
                crate::text::lemma_filter_push(reposv.subrange(0, i as int), reposv[i as int], pred);
                assert(reposv.subrange(0, i + 1) =~= reposv.subrange(0, i as int).push(
                    reposv[i as int],
                ));
            }
            if matches_platform {
                let ghost prevlen = out@.len();
                out.push((p.0.clone(), p.1.clone()));
                assert(out@[prevlen as int].0@ == reposv[i as int].0@);
                assert(repo_like(reposv[i as int].1, out@[prevlen as int].1));
                assert(reposv.subrange(0, i + 1).filter(pred) =~= reposv.subrange(
                    0,
                    i as int,
                ).filter(pred).push(reposv[i as int]));
            } else {
                assert(reposv.subrange(0, i + 1).filter(pred) =~= reposv.subrange(
                    0,
                    i as int,
                ).filter(pred));
            }
        }
        assert(reposv.subrange(0, n as int) =~= reposv);
        if out.len() == 0 {
            None
        } else {
            Some(out)
        }
    }
}

} // verus!
