use vstd::prelude::*;
use vstd::string::*;

use crate::ReleaseError;
use crate::manifest::{parse_toml, toml_parses, toml_str_at, toml_has_at, toml_node_at,
    doc_str_at, doc_has, doc_node_at, doc_round_trips, doc_str2, doc_str3, doc_has_key,
    toml_set_str2, toml_set_str3, toml_to_string, package_path, package_name_path,
    package_version_path, workspace_path, workspace_version_path, skipped_by_filters,
    CrateOutcome, crate_outcome_describes, crate_update_fails, member_deltas, member_file_fails,
    member_would_update, updated_paths_of};
use crate::appconfig::{parse_json, json_parses, json_str_at, json_node_at, jdoc_str_at,
    jdoc_node_at, jdoc_round_trips, json_get_str, json_set_str, json_to_string};
use crate::version::{is_valid_version, is_valid_version_str};
use crate::textops::{make_tag_name, substitute_version, substituted};
use crate::actions::VcsAction;

verus! {

/// The release parameters, as the command line hands them over.
#[derive(Debug)]
pub struct Cli {
    /// The new version string.
    pub version: String,
    /// Delete and re-create the tag where it already exists.
    pub re_publish: bool,
    /// Skip the version format check.
    pub force: bool,
    /// The commit-message template; `{version}` stands for the new version.
    pub message: String,
    /// The prefix of the tag name.
    pub tag_prefix: String,
    /// Only rewrite versions; perform no version-control step.
    pub dry_run: bool,
    /// Package names to leave alone.
    pub exclude: Vec<String>,
    /// When not empty: the only package names to touch.
    pub only: Vec<String>,
}

/// The release driver: the parameters, and the files rewritten so far.
pub struct ReleaseTool {
    pub args: Cli,
    pub updated_files: Vec<String>,
}

/// Whether `name` occurs in `list`.
fn name_in(list: &Vec<String>, name: &String) -> (r: bool)
    ensures
        r == list.deep_view().contains(name@),
{
    let mut k: usize = 0;
    while k < list.len()
        invariant
            0 <= k <= list@.len(),
            list.deep_view().len() == list@.len(),
            forall|j: int| 0 <= j < k ==> list.deep_view()[j] != name@,
        decreases list@.len() - k,
    {
        if list[k] == *name {
            proof {
                assert(list.deep_view()[k as int] == name@);
            }
            return true;
        }
        proof {
            assert(list.deep_view()[k as int] == list@[k as int]@);
        }
        k = k + 1;
    }
    proof {
        if list.deep_view().contains(name@) {
            let j = choose|j: int| 0 <= j < list.deep_view().len() && list.deep_view()[j]
                == name@;
            assert(list.deep_view()[j] != name@);
        }
    }
    false
}

/// What the prechecks decide, from what was observed.
pub open spec fn precheck_result(
    force: bool,
    version_ok: bool,
    repo_probe_ok: bool,
    tree_clean: bool,
) -> Result<(), ReleaseError> {
    if !force && !version_ok {
        Err(ReleaseError::InvalidVersionFormat)
    } else if !repo_probe_ok {
        Err(ReleaseError::NotARepository)
    } else if !tree_clean {
        Err(ReleaseError::DirtyWorkingTree)
    } else {
        Ok(())
    }
}

/// The root manifest must exist; `present` says whether it does.
pub fn root_manifest_required(present: bool) -> (r: Result<(), ReleaseError>)
    ensures
        r is Ok <==> present,
        r is Err ==> r == Err::<(), ReleaseError>(ReleaseError::NoManifestFound),
{
    if present {
        Ok(())
    } else {
        Err(ReleaseError::NoManifestFound)
    }
}

/// Whether the root manifest declares a workspace section.
pub fn manifest_declares_workspace(content: &String) -> (r: Result<bool, ReleaseError>)
    ensures
        r is Ok <==> toml_parses(content@),
        r is Err ==> r == Err::<bool, ReleaseError>(ReleaseError::ManifestParse),
        r matches Ok(b) ==> b == toml_has_at(content@, workspace_path()),
{
    match parse_toml(content.as_str()) {
        Ok(doc) => {
            let b = doc_has_key(&doc, "workspace");
            proof {
                assert(doc_has(doc, seq!["workspace"@]) == toml_has_at(
                    content@,
                    seq!["workspace"@],
                ));
            }
            Ok(b)
        },
        Err(_) => Err(ReleaseError::ManifestParse),
    }
}

impl ReleaseTool {
    /// A fresh driver for one release run: the given parameters, and no file
    /// rewritten yet.
    pub fn new(args: Cli) -> (r: Self)
        ensures
            r.args == args,
            r.updated_files@.len() == 0,
    {
        Self { args, updated_files: Vec::new() }
    }

    /// The tag name of this run.
    pub open spec fn spec_tag_name(&self) -> Seq<char> {
        self.args.tag_prefix@ + self.args.version@
    }

    /// The message of the annotated tag.
    pub open spec fn spec_tag_message(&self) -> Seq<char> {
        "Version "@ + self.args.version@
    }

    /// The tag name: the configured prefix followed by the version.
    pub fn tag_name(&self) -> (r: String)
        ensures
            r@ == self.spec_tag_name(),
    {
        make_tag_name(self.args.tag_prefix.as_str(), self.args.version.as_str())
    }

    /// Whether the requested version matches the accepted grammar; rejected
    /// otherwise.
    pub fn validate_version_format(&self) -> (r: Result<(), ReleaseError>)
        ensures
            r is Ok <==> is_valid_version(self.args.version@),
            r is Err ==> r == Err::<(), ReleaseError>(ReleaseError::InvalidVersionFormat),
    {
        if is_valid_version_str(self.args.version.as_str()) {
            Ok(())
        } else {
            Err(ReleaseError::InvalidVersionFormat)
        }
    }

    /// The probe's verdict on being inside a repository, as an error.
    pub fn check_git_repo(&self, repo_probe_ok: bool) -> (r: Result<(), ReleaseError>)
        ensures
            r is Ok <==> repo_probe_ok,
            r is Err ==> r == Err::<(), ReleaseError>(ReleaseError::NotARepository),
    {
        if repo_probe_ok {
            Ok(())
        } else {
            Err(ReleaseError::NotARepository)
        }
    }

    /// A working tree is clean exactly when the status query printed nothing.
    pub fn is_working_tree_clean(&self, status_output: &Vec<u8>) -> (r: bool)
        ensures
            r == (status_output@.len() == 0),
    {
        status_output.len() == 0
    }

    /// The checks before any rewrite: version format (unless forced), then
    /// the repository probe, then a clean working tree.
    pub fn prechecks(&self, repo_probe_ok: bool, status_output: &Vec<u8>) -> (r: Result<
        (),
        ReleaseError,
    >)
        ensures
            r == precheck_result(
                self.args.force,
                is_valid_version(self.args.version@),
                repo_probe_ok,
                status_output@.len() == 0,
            ),
    {
        if !self.args.force {
            let v = self.validate_version_format();
            if v.is_err() {
                return Err(ReleaseError::InvalidVersionFormat);
            }
        }
        let g = self.check_git_repo(repo_probe_ok);
        if g.is_err() {
            return Err(ReleaseError::NotARepository);
        }
        if !self.is_working_tree_clean(status_output) {
            return Err(ReleaseError::DirtyWorkingTree);
        }
        Ok(())
    }

    /// Whether the filters leave the named package alone.
    pub fn crate_is_skipped(&self, name: &String) -> (r: bool)
        ensures
            r == skipped_by_filters(
                name@,
                self.args.exclude.deep_view(),
                self.args.only.deep_view(),
            ),
    {
        let excluded = self.args.exclude.len() > 0 && name_in(&self.args.exclude, name);
        let off_only = self.args.only.len() > 0 && !name_in(&self.args.only, name);
        proof {
            assert(self.args.exclude.deep_view().len() == self.args.exclude@.len());
            assert(self.args.only.deep_view().len() == self.args.only@.len());
        }
        excluded || off_only
    }
}

/// Whether every push went through, from the observed outcome of each push
/// in order. A failed push to one remote does not stop the others, but the
/// run as a whole is reported failed when any push failed.
pub fn push_run_succeeded(outcomes: &Vec<bool>) -> (r: bool)
    ensures
        r == (forall|i: int| 0 <= i < outcomes@.len() ==> outcomes@[i]),
{
    let mut k: usize = 0;
    while k < outcomes.len()
        invariant
            0 <= k <= outcomes@.len(),
            forall|j: int| 0 <= j < k ==> outcomes@[j],
        decreases outcomes@.len() - k,
    {
        if !outcomes[k] {
            return false;
        }
        k = k + 1;
    }
    true
}

/// Whether the tag-listing query found the tag: it printed something.
pub fn tag_exists_in(output: &Vec<u8>) -> (r: bool)
    ensures
        r == (output@.len() != 0),
{
    output.len() != 0
}

/// The places where the application-config file may sit, in the order they
/// are tried.
pub fn tauri_config_paths() -> (r: Vec<String>)
    ensures
        r.deep_view() == seq!["tauri.conf.json"@, "src-tauri/tauri.conf.json"@],
{
    let mut out: Vec<String> = Vec::new();
    out.push(String::from_str("tauri.conf.json"));
    out.push(String::from_str("src-tauri/tauri.conf.json"));
    proof {
        assert(out.deep_view() =~= seq!["tauri.conf.json"@, "src-tauri/tauri.conf.json"@]);
    }
    out
}

impl ReleaseTool {
    /// Rewrites the package version of one manifest text: skips a manifest
    /// without a package section, skips a package the filters leave out, and
    /// otherwise hands back the rewritten text, recording the file.
    pub fn update_single_crate(&mut self, path: &String, content: &String) -> (r: Result<
        CrateOutcome,
        ReleaseError,
    >)
        ensures
            final(self).args == old(self).args,
            r matches Ok(out) ==> crate_outcome_describes(
                content@,
                old(self).args.version@,
                old(self).args.exclude.deep_view(),
                old(self).args.only.deep_view(),
                out,
            ),
            r matches Err(e) ==> crate_update_fails(content@, e) && final(self).updated_files
                == old(self).updated_files,
            r matches Ok(out) ==> (out is Updated ==> final(self).updated_files.deep_view()
                == old(self).updated_files.deep_view().push(path@)),
            r matches Ok(out) ==> (!(out is Updated) ==> final(self).updated_files == old(self).updated_files),
            !toml_parses(content@) ==> r == Err::<CrateOutcome, ReleaseError>(
                ReleaseError::ManifestParse,
            ),
            toml_parses(content@) && !toml_has_at(content@, package_path()) ==> r == Ok::<
                CrateOutcome,
                ReleaseError,
            >(CrateOutcome::NoPackage),
            toml_parses(content@) && toml_has_at(content@, package_path()) && (toml_str_at(
                content@,
                package_name_path(),
            ) is None || toml_str_at(content@, package_version_path()) is None) ==> r == Err::<
                CrateOutcome,
                ReleaseError,
            >(ReleaseError::ManifestParse),
            (toml_parses(content@) && toml_has_at(content@, package_path()) && toml_str_at(
                content@,
                package_name_path(),
            ) is Some && toml_str_at(content@, package_version_path()) is Some
                && skipped_by_filters(
                toml_str_at(content@, package_name_path())->Some_0,
                old(self).args.exclude.deep_view(),
                old(self).args.only.deep_view(),
            )) ==> (r matches Ok(out) && out is Skipped),
            (toml_parses(content@) && toml_has_at(content@, package_path()) && toml_str_at(
                content@,
                package_name_path(),
            ) is Some && toml_str_at(content@, package_version_path()) is Some
                && !skipped_by_filters(
                toml_str_at(content@, package_name_path())->Some_0,
                old(self).args.exclude.deep_view(),
                old(self).args.only.deep_view(),
            )) ==> (r matches Ok(out) && out is Updated),
    {
        let parsed = parse_toml(content.as_str());
        let mut doc = match parsed {
            Ok(d) => d,
            Err(_) => {
                return Err(ReleaseError::ManifestParse);
            },
        };
        let has_pkg = doc_has_key(&doc, "package");
        proof {
            assert(package_path() =~= seq!["package"@]);
            assert(doc_has(doc, seq!["package"@]) == toml_has_at(content@, seq!["package"@]));
        }
        if !has_pkg {
            return Ok(CrateOutcome::NoPackage);
        }
        let name_opt = doc_str2(&doc, "package", "name");
        proof {
            assert(package_name_path() =~= seq!["package"@, "name"@]);
            assert(doc_str_at(doc, seq!["package"@, "name"@]) == toml_str_at(
                content@,
                seq!["package"@, "name"@],
            ));
        }
        let name = match name_opt {
            Some(n) => n,
            None => {
                return Err(ReleaseError::ManifestParse);
            },
        };
        let version_opt = doc_str2(&doc, "package", "version");
        proof {
            assert(package_version_path() =~= seq!["package"@, "version"@]);
            assert(doc_str_at(doc, seq!["package"@, "version"@]) == toml_str_at(
                content@,
                seq!["package"@, "version"@],
            ));
            assert(doc_has(doc, seq!["package"@, "version"@]) == toml_has_at(
                content@,
                seq!["package"@, "version"@],
            ));
        }
        let old_version = match version_opt {
            Some(v) => v,
            None => {
                return Err(ReleaseError::ManifestParse);
            },
        };
        if self.crate_is_skipped(&name) {
            return Ok(CrateOutcome::Skipped { name });
        }
        let ghost doc0 = doc;
        let ok = toml_set_str2(&mut doc, "package", "version", self.args.version.as_str());
        proof {
            assert(doc_has(doc0, seq!["package"@, "version"@]));
            assert(ok);
            assert(doc_round_trips(doc));
        }
        let rendered = toml_to_string(&doc);
        let new_content = match rendered {
            Ok(s) => s,
            Err(_) => {
                // rendering a parsed document cannot fail
                proof {
                    assert(false);
                }
                return Err(ReleaseError::ManifestParse);
            },
        };
        proof {
            assert(toml_str_at(new_content@, seq!["package"@, "version"@]) == doc_str_at(
                doc,
                seq!["package"@, "version"@],
            ));
            assert(toml_has_at(new_content@, seq!["package"@, "version"@]) == doc_has(
                doc,
                seq!["package"@, "version"@],
            ));
            assert forall|q: Seq<Seq<char>>|
                !(q.len() >= 2 && q[0] == "package"@ && q[1] == "version"@) implies #[trigger]
            toml_str_at(new_content@, q) == toml_str_at(content@, q) by {
                assert(toml_str_at(new_content@, q) == doc_str_at(doc, q));
                assert(doc_str_at(doc, q) == doc_str_at(doc0, q));
                assert(doc_str_at(doc0, q) == toml_str_at(content@, q));
            }
            assert forall|q: Seq<Seq<char>>|
                !(q.len() >= 2 && q[0] == "package"@ && q[1] == "version"@) implies #[trigger]
            toml_has_at(new_content@, q) == toml_has_at(content@, q) by {
                assert(toml_has_at(new_content@, q) == doc_has(doc, q));
                assert(doc_has(doc, q) == doc_has(doc0, q));
                assert(doc_has(doc0, q) == toml_has_at(content@, q));
            }
            assert forall|q: Seq<Seq<char>>|
                q.len() >= 1 && (q[0] != "package"@ || (q.len() >= 2 && q[1] != "version"@))
                    implies #[trigger] toml_node_at(new_content@, q) == toml_node_at(
                content@,
                q,
            ) by {
                assert(toml_node_at(new_content@, q) == doc_node_at(doc, q));
                assert(doc_node_at(doc, q) == doc_node_at(doc0, q));
                assert(doc_node_at(doc0, q) == toml_node_at(content@, q));
            }
        }
        let ghost prev = self.updated_files.deep_view();
        self.updated_files.push(path.clone());
        proof {
            assert(self.updated_files.deep_view() =~= prev.push(path@));
        }
        Ok(CrateOutcome::Updated { name, old_version, new_content })
    }

    /// Rewrites the workspace section's shared package version of the root
    /// manifest, where it declares one; hands back the old version and the
    /// rewritten text, recording the file.
    pub fn update_root_workspace_version(&mut self, content: &String) -> (r: Result<
        Option<(String, String)>,
        ReleaseError,
    >)
        ensures
            final(self).args == old(self).args,
            !toml_parses(content@) ==> r == Err::<Option<(String, String)>, ReleaseError>(
                ReleaseError::ManifestParse,
            ) && final(self).updated_files == old(self).updated_files,
            toml_parses(content@) && toml_str_at(content@, workspace_version_path()) is None ==> r
                == Ok::<Option<(String, String)>, ReleaseError>(None) && final(self).updated_files == old(self).updated_files,
            toml_parses(content@) && toml_str_at(content@, workspace_version_path()) is Some ==> (
            r matches Ok(o) && o matches Some(t) && toml_str_at(
                content@,
                workspace_version_path(),
            ) == Some(t.0@) && toml_parses(t.1@) && toml_str_at(t.1@, workspace_version_path())
                == Some(old(self).args.version@) && (forall|q: Seq<Seq<char>>|
                !(q.len() >= 3 && q[0] == "workspace"@ && q[1] == "package"@ && q[2]
                    == "version"@) ==> #[trigger] toml_str_at(t.1@, q) == toml_str_at(
                    content@,
                    q,
                )) && (forall|q: Seq<Seq<char>>|
                !(q.len() >= 3 && q[0] == "workspace"@ && q[1] == "package"@ && q[2]
                    == "version"@) ==> #[trigger] toml_has_at(t.1@, q) == toml_has_at(
                    content@,
                    q,
                )) && (forall|q: Seq<Seq<char>>|
                q.len() >= 1 && (q[0] != "workspace"@ || (q.len() >= 2 && (q[1] != "package"@
                    || (q.len() >= 3 && q[2] != "version"@)))) ==> #[trigger] toml_node_at(
                    t.1@,
                    q,
                ) == toml_node_at(content@, q)) && final(self).updated_files.deep_view() == old(
                self,
            ).updated_files.deep_view().push("Cargo.toml"@)),
    {
        let parsed = parse_toml(content.as_str());
        let mut doc = match parsed {
            Ok(d) => d,
            Err(_) => {
                return Err(ReleaseError::ManifestParse);
            },
        };
        let ws_opt = doc_str3(&doc, "workspace", "package", "version");
        proof {
            assert(workspace_version_path() =~= seq!["workspace"@, "package"@, "version"@]);
            assert(doc_str_at(doc, seq!["workspace"@, "package"@, "version"@]) == toml_str_at(
                content@,
                seq!["workspace"@, "package"@, "version"@],
            ));
            assert(doc_has(doc, seq!["workspace"@, "package"@, "version"@]) == toml_has_at(
                content@,
                seq!["workspace"@, "package"@, "version"@],
            ));
        }
        let old_version = match ws_opt {
            Some(v) => v,
            None => {
                return Ok(None);
            },
        };
        let ghost doc0 = doc;
        let ok = toml_set_str3(
            &mut doc,
            "workspace",
            "package",
            "version",
            self.args.version.as_str(),
        );
        proof {
            assert(doc_has(doc0, seq!["workspace"@, "package"@, "version"@]));
            assert(ok);
            assert(doc_round_trips(doc));
        }
        let rendered = toml_to_string(&doc);
        let new_content = match rendered {
            Ok(s) => s,
            Err(_) => {
                // rendering a parsed document cannot fail
                proof {
                    assert(false);
                }
                return Err(ReleaseError::ManifestParse);
            },
        };
        proof {
            assert(toml_str_at(new_content@, seq!["workspace"@, "package"@, "version"@])
                == doc_str_at(doc, seq!["workspace"@, "package"@, "version"@]));
            assert forall|q: Seq<Seq<char>>|
                !(q.len() >= 3 && q[0] == "workspace"@ && q[1] == "package"@ && q[2]
                    == "version"@) implies #[trigger] toml_str_at(new_content@, q) == toml_str_at(
                content@,
                q,
            ) by {
                assert(toml_str_at(new_content@, q) == doc_str_at(doc, q));
                assert(doc_str_at(doc, q) == doc_str_at(doc0, q));
                assert(doc_str_at(doc0, q) == toml_str_at(content@, q));
            }
            assert forall|q: Seq<Seq<char>>|
                !(q.len() >= 3 && q[0] == "workspace"@ && q[1] == "package"@ && q[2]
                    == "version"@) implies #[trigger] toml_has_at(new_content@, q) == toml_has_at(
                content@,
                q,
            ) by {
                assert(toml_has_at(new_content@, q) == doc_has(doc, q));
                assert(doc_has(doc, q) == doc_has(doc0, q));
                assert(doc_has(doc0, q) == toml_has_at(content@, q));
            }
            assert forall|q: Seq<Seq<char>>|
                q.len() >= 1 && (q[0] != "workspace"@ || (q.len() >= 2 && (q[1] != "package"@
                    || (q.len() >= 3 && q[2] != "version"@)))) implies #[trigger] toml_node_at(
                new_content@,
                q,
            ) == toml_node_at(content@, q) by {
                assert(toml_node_at(new_content@, q) == doc_node_at(doc, q));
                assert(doc_node_at(doc, q) == doc_node_at(doc0, q));
                assert(doc_node_at(doc0, q) == toml_node_at(content@, q));
            }
        }
        let ghost prev = self.updated_files.deep_view();
        self.updated_files.push(String::from_str("Cargo.toml"));
        proof {
            assert(self.updated_files.deep_view() =~= prev.push("Cargo.toml"@));
        }
        Ok(Some((old_version, new_content)))
    }

    /// Applies the single-manifest rewrite to every discovered manifest, in
    /// order; the caller rewrites the workspace's shared version first and
    /// hands the files as read after that step.
    pub fn update_workspace_versions(&mut self, files: &Vec<(String, String)>) -> (r: Result<
        Vec<(String, CrateOutcome)>,
        ReleaseError,
    >)
        ensures
            final(self).args == old(self).args,
            r matches Ok(list) ==> ({
                &&& list@.len() == files@.len()
                &&& (forall|i: int|
                    0 <= i < list@.len() ==> (#[trigger] list@[i]).0@ == files@[i].0@)
                &&& (forall|i: int|
                    0 <= i < list@.len() ==> crate_outcome_describes(
                        files@[i].1@,
                        old(self).args.version@,
                        old(self).args.exclude.deep_view(),
                        old(self).args.only.deep_view(),
                        (#[trigger] list@[i]).1,
                    ))
                &&& final(self).updated_files.deep_view() == old(self).updated_files.deep_view()
                    + member_deltas(list@)
                &&& final(self).updated_files.deep_view() == old(self).updated_files.deep_view()
                    + updated_paths_of(
                    files@,
                    old(self).args.exclude.deep_view(),
                    old(self).args.only.deep_view(),
                )
            }),
            r is Ok <==> (forall|i: int|
                0 <= i < files@.len() ==> !member_file_fails((#[trigger] files@[i]).1@)),
            r matches Err(e) ==> e == ReleaseError::ManifestParse,
            r is Err ==> exists|k: int|
                0 <= k < files@.len() && member_file_fails((#[trigger] files@[k]).1@) && (forall|
                    j: int,
                |
                    0 <= j < k ==> !member_file_fails(#[trigger] files@[j].1@)) && final(self).updated_files.deep_view() == old(self).updated_files.deep_view()
                    + updated_paths_of(
                    files@.take(k),
                    old(self).args.exclude.deep_view(),
                    old(self).args.only.deep_view(),
                ),
    {
        let mut out: Vec<(String, CrateOutcome)> = Vec::new();
        let mut k: usize = 0;
        let ghost excl = self.args.exclude.deep_view();
        let ghost only = self.args.only.deep_view();
        proof {
            assert(member_deltas(out@) =~= Seq::<Seq<char>>::empty());
            assert(self.updated_files.deep_view() =~= old(self).updated_files.deep_view()
                + member_deltas(out@));
            assert(files@.take(0) =~= Seq::<(String, String)>::empty());
            assert(self.updated_files.deep_view() =~= old(self).updated_files.deep_view()
                + updated_paths_of(files@.take(0), excl, only));
        }
        while k < files.len()
            invariant
                0 <= k <= files@.len(),
                out@.len() == k,
                self.args == old(self).args,
                excl == old(self).args.exclude.deep_view(),
                only == old(self).args.only.deep_view(),
                forall|i: int| 0 <= i < k ==> (#[trigger] out@[i]).0@ == files@[i].0@,
                forall|i: int|
                    0 <= i < k ==> crate_outcome_describes(
                        files@[i].1@,
                        old(self).args.version@,
                        old(self).args.exclude.deep_view(),
                        old(self).args.only.deep_view(),
                        (#[trigger] out@[i]).1,
                    ),
                forall|j: int| 0 <= j < k ==> !member_file_fails(#[trigger] files@[j].1@),
                self.updated_files.deep_view() == old(self).updated_files.deep_view()
                    + member_deltas(out@),
                self.updated_files.deep_view() == old(self).updated_files.deep_view()
                    + updated_paths_of(files@.take(k as int), excl, only),
            decreases files@.len() - k,
        {
            let path = files[k].0.clone();
            let content = files[k].1.clone();
            let ghost prev_files = self.updated_files.deep_view();
            let step = self.update_single_crate(&path, &content);
            match step {
                Err(e) => {
                    proof {
                        assert(crate_update_fails((files@[k as int]).1@, e));
                        assert(member_file_fails(files@[k as int].1@));
                    }
                    return Err(e);
                },
                Ok(o) => {
                    let ghost prev_out = out@;
                    let is_updated = match &o {
                        CrateOutcome::Updated { .. } => true,
                        _ => false,
                    };
                    out.push((path, o));
                    proof {
                        let c = files@[k as int].1@;
                        assert(!member_file_fails(c));
                        assert(is_updated == member_would_update(c, excl, only));
                        assert(out@.drop_last() =~= prev_out);
                        assert(member_deltas(out@) == member_deltas(prev_out) + (match out@.last().1 {
                            CrateOutcome::Updated { .. } => seq![out@.last().0@],
                            _ => Seq::<Seq<char>>::empty(),
                        }));
                        assert(files@.take(k + 1).drop_last() =~= files@.take(k as int));
                        assert(files@.take(k + 1).last() == files@[k as int]);
                        assert(updated_paths_of(files@.take(k + 1), excl, only)
                            == updated_paths_of(files@.take(k as int), excl, only) + (
                        if member_would_update(c, excl, only) {
                            seq![files@[k as int].0@]
                        } else {
                            Seq::<Seq<char>>::empty()
                        }));
                        if is_updated {
                            assert(self.updated_files.deep_view() =~= prev_files.push(
                                out@.last().0@,
                            ));
                            assert(self.updated_files.deep_view() =~= old(self).updated_files.deep_view() + member_deltas(out@));
                            assert(self.updated_files.deep_view() =~= old(self).updated_files.deep_view() + updated_paths_of(
                                files@.take(k + 1),
                                excl,
                                only,
                            ));
                        } else {
                            assert(member_deltas(out@) =~= member_deltas(prev_out));
                            assert(self.updated_files.deep_view() =~= old(self).updated_files.deep_view() + updated_paths_of(
                                files@.take(k + 1),
                                excl,
                                only,
                            ));
                        }
                    }
                },
            }
            k = k + 1;
        }
        proof {
            assert(files@.take(files@.len() as int) =~= files@);
        }
        Ok(out)
    }

    /// Rewrites the version field of the application-config file the caller
    /// found, where one was found; hands back the old version and the
    /// rewritten text, recording the file.
    pub fn update_tauri_config(&mut self, found: Option<(String, String)>) -> (r: Result<
        Option<(String, String)>,
        ReleaseError,
    >)
        ensures
            final(self).args == old(self).args,
            found is None ==> r == Ok::<Option<(String, String)>, ReleaseError>(None) && final(self).updated_files == old(self).updated_files,
            found matches Some(pc) ==> ({
                &&& !json_parses(pc.1@) ==> r == Err::<Option<(String, String)>, ReleaseError>(
                    ReleaseError::ConfigParse,
                ) && final(self).updated_files == old(self).updated_files
                &&& json_parses(pc.1@) && json_str_at(pc.1@, seq!["version"@]) is None ==> r
                    == Err::<Option<(String, String)>, ReleaseError>(ReleaseError::ConfigParse)
                    && final(self).updated_files == old(self).updated_files
                &&& json_parses(pc.1@) && json_str_at(pc.1@, seq!["version"@]) is Some ==> (
                r matches Ok(o) && o matches Some(t) && json_str_at(pc.1@, seq!["version"@])
                    == Some(t.0@) && json_parses(t.1@) && json_str_at(t.1@, seq!["version"@])
                    == Some(old(self).args.version@) && (forall|q: Seq<Seq<char>>|
                    !(q.len() >= 1 && q[0] == "version"@) ==> #[trigger] json_str_at(t.1@, q)
                        == json_str_at(pc.1@, q)) && (forall|q: Seq<Seq<char>>|
                    q.len() >= 1 && q[0] != "version"@ ==> #[trigger] json_node_at(t.1@, q)
                        == json_node_at(pc.1@, q)) && final(self).updated_files.deep_view()
                    == old(self).updated_files.deep_view().push(pc.0@))
            }),
    {
        let (path, content) = match found {
            None => {
                return Ok(None);
            },
            Some(t) => t,
        };
        let parsed = parse_json(content.as_str());
        let mut doc = match parsed {
            Ok(d) => d,
            Err(_) => {
                return Err(ReleaseError::ConfigParse);
            },
        };
        let old_version = match json_get_str(&doc, "version") {
            Some(v) => v,
            None => {
                return Err(ReleaseError::ConfigParse);
            },
        };
        let ghost doc0 = doc;
        let ok = json_set_str(&mut doc, "version", self.args.version.as_str());
        proof {
            assert(jdoc_str_at(doc0, seq!["version"@]) is Some);
            assert(ok);
            assert(jdoc_round_trips(doc));
        }
        let rendered = json_to_string(&doc);
        let new_content = match rendered {
            Ok(s) => s,
            Err(_) => {
                // rendering a parsed document cannot fail
                proof {
                    assert(false);
                }
                return Err(ReleaseError::ConfigParse);
            },
        };
        proof {
            assert(json_str_at(new_content@, seq!["version"@]) == jdoc_str_at(
                doc,
                seq!["version"@],
            ));
            assert forall|q: Seq<Seq<char>>|
                !(q.len() >= 1 && q[0] == "version"@) implies #[trigger] json_str_at(
                new_content@,
                q,
            ) == json_str_at(content@, q) by {
                assert(json_str_at(new_content@, q) == jdoc_str_at(doc, q));
                assert(jdoc_str_at(doc, q) == jdoc_str_at(doc0, q));
                assert(jdoc_str_at(doc0, q) == json_str_at(content@, q));
            }
            assert forall|q: Seq<Seq<char>>|
                q.len() >= 1 && q[0] != "version"@ implies #[trigger] json_node_at(
                new_content@,
                q,
            ) == json_node_at(content@, q) by {
                assert(json_node_at(new_content@, q) == jdoc_node_at(doc, q));
                assert(jdoc_node_at(doc, q) == jdoc_node_at(doc0, q));
                assert(jdoc_node_at(doc0, q) == json_node_at(content@, q));
            }
        }
        let ghost prev = self.updated_files.deep_view();
        self.updated_files.push(path.clone());
        proof {
            assert(self.updated_files.deep_view() =~= prev.push(path@));
        }
        Ok(Some((old_version, new_content)))
    }
}

impl ReleaseTool {
    /// The staging and commit actions: stage everything, then commit with
    /// the template's placeholder substituted by the new version.
    pub fn commit_steps(&self) -> (r: Vec<VcsAction>)
        ensures
            r@.len() == 2,
            r@[0] == VcsAction::AddAll,
            r@[1] matches VcsAction::Commit { message } && message@ == substituted(
                self.args.message@,
                self.args.version@,
            ),
    {
        let mut acts: Vec<VcsAction> = Vec::new();
        acts.push(VcsAction::AddAll);
        let msg = substitute_version(self.args.message.as_str(), self.args.version.as_str());
        acts.push(VcsAction::Commit { message: msg });
        acts
    }

    /// The best-effort deletions of the tag on every remote, in order.
    pub fn delete_remote_tag_steps(&self, tag: &String, remotes: &Vec<String>) -> (r: Vec<
        VcsAction,
    >)
        ensures
            r@.len() == remotes.deep_view().len(),
            forall|i: int|
                0 <= i < r@.len() ==> ((#[trigger] r@[i]) matches VcsAction::DeleteRemoteTag {
                    remote,
                    tag: t,
                } && remote@ == remotes.deep_view()[i] && t@ == tag@),
    {
        let mut acts: Vec<VcsAction> = Vec::new();
        let mut k: usize = 0;
        while k < remotes.len()
            invariant
                0 <= k <= remotes@.len(),
                remotes.deep_view().len() == remotes@.len(),
                acts@.len() == k,
                forall|i: int|
                    0 <= i < k ==> ((#[trigger] acts@[i]) matches VcsAction::DeleteRemoteTag {
                        remote,
                        tag: t,
                    } && remote@ == remotes.deep_view()[i] && t@ == tag@),
            decreases remotes@.len() - k,
        {
            acts.push(
                VcsAction::DeleteRemoteTag { remote: remotes[k].clone(), tag: tag.clone() },
            );
            proof {
                assert(remotes.deep_view()[k as int] == remotes@[k as int]@);
            }
            k = k + 1;
        }
        acts
    }

    /// What the tag stage does, given whether the tag already exists:
    /// refuses to overwrite without the republish flag; with it, deletes the
    /// local tag and, best-effort, the tag on every remote; always ends
    /// creating the annotated tag.
    pub fn handle_tag_steps(&self, tag_exists: bool, remotes: &Vec<String>) -> (r: Result<
        Vec<VcsAction>,
        ReleaseError,
    >)
        ensures
            r is Err <==> tag_exists && !self.args.re_publish,
            r is Err ==> r == Err::<Vec<VcsAction>, ReleaseError>(ReleaseError::TagAlreadyExists),
            r matches Ok(a) ==> (a@.last() matches VcsAction::CreateTag { tag, message } && tag@
                == self.spec_tag_name() && message@ == self.spec_tag_message()),
            r matches Ok(a) ==> (!tag_exists ==> a@.len() == 1),
            r matches Ok(a) ==> tag_exists ==> ({
                &&& a@.len() == 2 + remotes.deep_view().len()
                &&& (a@[0] matches VcsAction::DeleteLocalTag { tag } && tag@
                    == self.spec_tag_name())
                &&& (forall|i: int|
                    0 <= i < remotes.deep_view().len() ==> ((#[trigger] a@[1 + i]) matches
                    VcsAction::DeleteRemoteTag { remote, tag } && remote@
                        == remotes.deep_view()[i] && tag@ == self.spec_tag_name()))
            }),
    {
        let tag = self.tag_name();
        if tag_exists && !self.args.re_publish {
            return Err(ReleaseError::TagAlreadyExists);
        }
        let mut acts: Vec<VcsAction> = Vec::new();
        if tag_exists {
            acts.push(VcsAction::DeleteLocalTag { tag: tag.clone() });
            let mut dels = self.delete_remote_tag_steps(&tag, remotes);
            let ghost head = acts@;
            let ghost del_part = dels@;
            acts.append(&mut dels);
            proof {
                assert(acts@ == head + del_part);
                assert forall|i: int| 0 <= i < del_part.len() implies acts@[1 + i]
                    == del_part[i] by {}
            }
        }
        let mut msg = String::from_str("Version ");
        msg.append(self.args.version.as_str());
        let ghost before_create = acts@;
        acts.push(VcsAction::CreateTag { tag, message: msg });
        proof {
            assert(acts@.last() == acts@[before_create.len() as int]);
            assert forall|i: int| 0 <= i < before_create.len() implies acts@[i]
                == before_create[i] by {}
        }
        Ok(acts)
    }

    /// The push actions: for every remote in order, push the branch head,
    /// then push all tags.
    pub fn push_steps(&self, remotes: &Vec<String>) -> (r: Vec<VcsAction>)
        ensures
            r@.len() == 2 * remotes.deep_view().len(),
            forall|i: int|
                0 <= i < remotes.deep_view().len() ==> ((#[trigger] r@[2 * i]) matches
                VcsAction::PushBranch { remote } && remote@ == remotes.deep_view()[i]),
            forall|i: int|
                0 <= i < remotes.deep_view().len() ==> ((#[trigger] r@[2 * i + 1]) matches
                VcsAction::PushTags { remote } && remote@ == remotes.deep_view()[i]),
    {
        let mut acts: Vec<VcsAction> = Vec::new();
        let mut k: usize = 0;
        while k < remotes.len()
            invariant
                0 <= k <= remotes@.len(),
                remotes.deep_view().len() == remotes@.len(),
                acts@.len() == 2 * k,
                forall|i: int|
                    0 <= i < k ==> ((#[trigger] acts@[2 * i]) matches VcsAction::PushBranch {
                        remote,
                    } && remote@ == remotes.deep_view()[i]),
                forall|i: int|
                    0 <= i < k ==> ((#[trigger] acts@[2 * i + 1]) matches VcsAction::PushTags {
                        remote,
                    } && remote@ == remotes.deep_view()[i]),
            decreases remotes@.len() - k,
        {
            acts.push(VcsAction::PushBranch { remote: remotes[k].clone() });
            acts.push(VcsAction::PushTags { remote: remotes[k].clone() });
            proof {
                assert(remotes.deep_view()[k as int] == remotes@[k as int]@);
            }
            k = k + 1;
        }
        acts
    }

    /// The whole publish plan after the rewrites. In dry-run mode it is
    /// empty: no version-control mutation is asked for at all. Otherwise it
    /// is commit, tag handling and pushes, in order.
    pub fn publish_steps(&self, tag_exists: bool, remotes: &Vec<String>) -> (r: Result<
        Vec<VcsAction>,
        ReleaseError,
    >)
        ensures
            self.args.dry_run ==> (r matches Ok(a) && a@.len() == 0),
            r is Err <==> !self.args.dry_run && tag_exists && !self.args.re_publish,
            r is Err ==> r == Err::<Vec<VcsAction>, ReleaseError>(ReleaseError::TagAlreadyExists),
            r matches Ok(a) ==> !self.args.dry_run ==> ({
                let rn = remotes.deep_view().len();
                let del: int = if tag_exists {
                    1 + rn as int
                } else {
                    0
                };
                &&& a@.len() == 3 + del + 2 * rn
                &&& a@[0] == VcsAction::AddAll
                &&& (a@[1] matches VcsAction::Commit { message } && message@ == substituted(
                    self.args.message@,
                    self.args.version@,
                ))
                &&& (tag_exists ==> (a@[2] matches VcsAction::DeleteLocalTag { tag } && tag@
                    == self.spec_tag_name()))
                &&& (tag_exists ==> forall|i: int|
                    0 <= i < rn ==> ((#[trigger] a@[3 + i]) matches VcsAction::DeleteRemoteTag {
                        remote,
                        tag,
                    } && remote@ == remotes.deep_view()[i] && tag@ == self.spec_tag_name()))
                &&& (a@[2 + del] matches VcsAction::CreateTag { tag, message } && tag@
                    == self.spec_tag_name() && message@ == self.spec_tag_message())
                &&& (forall|i: int|
                    0 <= i < rn ==> ((#[trigger] a@[3 + del + 2 * i]) matches
                    VcsAction::PushBranch { remote } && remote@ == remotes.deep_view()[i]))
                &&& (forall|i: int|
                    0 <= i < rn ==> ((#[trigger] a@[3 + del + 2 * i + 1]) matches
                    VcsAction::PushTags { remote } && remote@ == remotes.deep_view()[i]))
            }),
    {
        if self.args.dry_run {
            return Ok(Vec::new());
        }
        let mut acts = self.commit_steps();
        let tagged = self.handle_tag_steps(tag_exists, remotes);
        let mut tag_acts = match tagged {
            Ok(t) => t,
            Err(e) => {
                return Err(e);
            },
        };
        let mut pushes = self.push_steps(remotes);
        let ghost commit_part = acts@;
        let ghost tag_part = tag_acts@;
        let ghost push_part = pushes@;
        acts.append(&mut tag_acts);
        acts.append(&mut pushes);
        proof {
            let rn = remotes.deep_view().len();
            let del: int = if tag_exists {
                1 + rn as int
            } else {
                0
            };
            assert(acts@ == (commit_part + tag_part) + push_part);
            assert(tag_part.len() == 1 + del);
            assert(acts@.len() == 3 + del + 2 * rn);
            assert(acts@[0] == commit_part[0]);
            assert(acts@[1] == commit_part[1]);
            if tag_exists {
                assert(acts@[2] == tag_part[0]);
                assert forall|i: int| 0 <= i < rn implies #[trigger] acts@[3 + i] == tag_part[1
                    + i] by {}
            }
            assert(acts@[2 + del] == tag_part[del]);
            assert(tag_part[del] == tag_part.last());
            assert forall|i: int| 0 <= i < rn implies #[trigger] acts@[3 + del + 2 * i]
                == push_part[2 * i] by {}
            assert forall|i: int| 0 <= i < rn implies #[trigger] acts@[3 + del + 2 * i + 1]
                == push_part[2 * i + 1] by {}
        }
        Ok(acts)
    }
}

} // verus!
