use vstd::prelude::*;

verus! {

// The toml crate's document value and error types, declared so that they can
// stand in signatures; their contents stay opaque.
#[verifier::external_type_specification]
#[verifier::external_body]
pub struct ExTomlValue(toml::Value);

#[verifier::external_type_specification]
#[verifier::external_body]
pub struct ExTomlDeError(toml::de::Error);

#[verifier::external_type_specification]
#[verifier::external_body]
pub struct ExTomlSerError(toml::ser::Error);

/// Whether the toml crate parses this text as a TOML document.
pub uninterp spec fn toml_parses(s: Seq<char>) -> bool;

/// The string value that parsing this text yields at the given key path
/// (navigating nested tables), or None where the path misses or the value
/// there is not a string.
pub uninterp spec fn toml_str_at(s: Seq<char>, path: Seq<Seq<char>>) -> Option<Seq<char>>;

/// Whether parsing this text yields a value of any kind at the given key path.
pub uninterp spec fn toml_has_at(s: Seq<char>, path: Seq<Seq<char>>) -> bool;

/// A fingerprint of the whole value that parsing this text yields at the
/// given key path — nested tables, arrays, numbers, booleans and datetimes
/// included — or of its absence. Equal fingerprints stand for value-equal
/// content there.
pub uninterp spec fn toml_node_at(s: Seq<char>, path: Seq<Seq<char>>) -> int;

/// The string value a parsed document holds at the given key path, or None.
pub uninterp spec fn doc_str_at(v: toml::Value, path: Seq<Seq<char>>) -> Option<Seq<char>>;

/// Whether a parsed document holds a value of any kind at the given key path.
pub uninterp spec fn doc_has(v: toml::Value, path: Seq<Seq<char>>) -> bool;

/// A fingerprint of the whole value a parsed document holds at the given
/// key path, or of its absence.
pub uninterp spec fn doc_node_at(v: toml::Value, path: Seq<Seq<char>>) -> int;

/// Whether rendering this document succeeds and yields text that reparses to
/// the same contents. It holds of every document the parser produced: the
/// parser enforces a nesting limit the serializer has no trouble with, and
/// every parsed value is of a kind the serializer writes back exactly.
pub uninterp spec fn doc_round_trips(v: toml::Value) -> bool;

/// Relies on toml::from_str: parses TOML text into a generic document value,
/// whose contents are exactly what the text holds; a parsed document stays
/// within the parser's nesting limit, so it renders and round-trips.
#[verifier::external_body]
pub(crate) fn parse_toml(s: &str) -> (r: Result<toml::Value, toml::de::Error>)
    ensures
        r is Ok <==> toml_parses(s@),
        r matches Ok(v) ==> doc_round_trips(v),
        r matches Ok(v) ==> forall|q: Seq<Seq<char>>| #[trigger] doc_str_at(v, q) == toml_str_at(
            s@,
            q,
        ),
        r matches Ok(v) ==> forall|q: Seq<Seq<char>>| #[trigger] doc_has(v, q) == toml_has_at(
            s@,
            q,
        ),
        r matches Ok(v) ==> forall|q: Seq<Seq<char>>| #[trigger] doc_node_at(v, q)
            == toml_node_at(s@, q),
{
    toml::from_str::<toml::Value>(s)
}

/// Relies on toml::to_string_pretty: renders a document back to TOML text;
/// for a document within the parser's nesting limit the rendering succeeds
/// and reparses to the same contents.
#[verifier::external_body]
pub(crate) fn toml_to_string(v: &toml::Value) -> (r: Result<String, toml::ser::Error>)
    ensures
        doc_round_trips(*v) ==> r is Ok,
        r matches Ok(out) ==> doc_round_trips(*v) ==> toml_parses(out@),
        r matches Ok(out) ==> doc_round_trips(*v) ==> forall|q: Seq<Seq<char>>|
            #[trigger] toml_str_at(out@, q) == doc_str_at(*v, q),
        r matches Ok(out) ==> doc_round_trips(*v) ==> forall|q: Seq<Seq<char>>|
            #[trigger] toml_has_at(out@, q) == doc_has(*v, q),
        r matches Ok(out) ==> doc_round_trips(*v) ==> forall|q: Seq<Seq<char>>|
            #[trigger] toml_node_at(out@, q) == doc_node_at(*v, q),
{
    toml::to_string_pretty(v)
}

/// Relies on toml::Value::get: looks one key up in a table value; a missing
/// key, or a value that is no table, yields None.
#[verifier::external_body]
pub(crate) fn toml_get<'a>(v: &'a toml::Value, key: &str) -> (r: Option<&'a toml::Value>)
    ensures
        r is Some <==> doc_has(*v, seq![key@]),
        r matches Some(sub) ==> forall|q: Seq<Seq<char>>|
            q.len() >= 1 && q[0] == key@ ==> #[trigger] doc_str_at(*v, q) == doc_str_at(
                *sub,
                q.drop_first(),
            ),
        r matches Some(sub) ==> forall|q: Seq<Seq<char>>|
            q.len() >= 1 && q[0] == key@ ==> #[trigger] doc_has(*v, q) == doc_has(
                *sub,
                q.drop_first(),
            ),
        r is None ==> forall|q: Seq<Seq<char>>|
            q.len() >= 1 && q[0] == key@ ==> (#[trigger] doc_str_at(*v, q)) is None,
        r is None ==> forall|q: Seq<Seq<char>>|
            q.len() >= 1 && q[0] == key@ ==> !(#[trigger] doc_has(*v, q)),
{
    v.get(key)
}

/// Relies on toml::Value::as_str: the string payload of a string value.
#[verifier::external_body]
pub(crate) fn toml_as_str(v: &toml::Value) -> (r: Option<String>)
    ensures
        r is Some <==> doc_str_at(*v, Seq::empty()) is Some,
        r matches Some(s) ==> doc_str_at(*v, Seq::empty()) == Some(s@),
{
    match v.as_str() {
        Some(s) => Some(s.to_owned()),
        None => None,
    }
}

/// Relies on toml::Value::get_mut, Value::as_table_mut and Table::insert:
/// sets the entry at `[k1, k2]` to the given string, leaving every other
/// path unchanged; fails only where `[k1]` is absent or holds no table.
#[verifier::external_body]
pub(crate) fn toml_set_str2(v: &mut toml::Value, k1: &str, k2: &str, s: &str) -> (r: bool)
    ensures
        (exists|k: Seq<char>| doc_has(*old(v), seq![k1@, k])) ==> r,
        r ==> doc_str_at(*final(v), seq![k1@, k2@]) == Some(s@),
        r ==> doc_has(*final(v), seq![k1@, k2@]),
        forall|q: Seq<Seq<char>>| !(q.len() >= 2 && q[0] == k1@ && q[1] == k2@) ==>
            #[trigger] doc_str_at(*final(v), q) == doc_str_at(*old(v), q),
        forall|q: Seq<Seq<char>>| !(q.len() >= 2 && q[0] == k1@ && q[1] == k2@) ==>
            #[trigger] doc_has(*final(v), q) == doc_has(*old(v), q),
        forall|q: Seq<Seq<char>>| q.len() >= 3 && q[0] == k1@ && q[1] == k2@ ==> (
        #[trigger] doc_str_at(*final(v), q)) is None,
        forall|q: Seq<Seq<char>>| q.len() >= 3 && q[0] == k1@ && q[1] == k2@ ==> !(
        #[trigger] doc_has(*final(v), q)),
        forall|q: Seq<Seq<char>>|
            q.len() >= 1 && (q[0] != k1@ || (q.len() >= 2 && q[1] != k2@)) ==>
                #[trigger] doc_node_at(*final(v), q) == doc_node_at(*old(v), q),
        doc_round_trips(*old(v)) ==> doc_round_trips(*final(v)),
        !r ==> forall|q: Seq<Seq<char>>| #[trigger] doc_str_at(*final(v), q) == doc_str_at(
            *old(v),
            q,
        ),
        !r ==> forall|q: Seq<Seq<char>>| #[trigger] doc_has(*final(v), q) == doc_has(*old(v), q),
        !r ==> forall|q: Seq<Seq<char>>| #[trigger] doc_node_at(*final(v), q) == doc_node_at(
            *old(v),
            q,
        ),
{
    match v.get_mut(k1) {
        Some(inner) => match inner.as_table_mut() {
            Some(table) => {
                table.insert(k2.to_owned(), toml::Value::String(s.to_owned()));
                true
            },
            None => false,
        },
        None => false,
    }
}

/// Relies on toml::Value::get_mut, Value::as_table_mut and Table::insert:
/// sets the entry at `[k1, k2, k3]` to the given string, leaving every other
/// path unchanged; fails only where `[k1, k2]` is absent or holds no table.
#[verifier::external_body]
pub(crate) fn toml_set_str3(v: &mut toml::Value, k1: &str, k2: &str, k3: &str, s: &str) -> (r:
    bool)
    ensures
        (exists|k: Seq<char>| doc_has(*old(v), seq![k1@, k2@, k])) ==> r,
        r ==> doc_str_at(*final(v), seq![k1@, k2@, k3@]) == Some(s@),
        r ==> doc_has(*final(v), seq![k1@, k2@, k3@]),
        forall|q: Seq<Seq<char>>| !(q.len() >= 3 && q[0] == k1@ && q[1] == k2@ && q[2] == k3@)
            ==> #[trigger] doc_str_at(*final(v), q) == doc_str_at(*old(v), q),
        forall|q: Seq<Seq<char>>| !(q.len() >= 3 && q[0] == k1@ && q[1] == k2@ && q[2] == k3@)
            ==> #[trigger] doc_has(*final(v), q) == doc_has(*old(v), q),
        forall|q: Seq<Seq<char>>| q.len() >= 4 && q[0] == k1@ && q[1] == k2@ && q[2] == k3@ ==> (
        #[trigger] doc_str_at(*final(v), q)) is None,
        forall|q: Seq<Seq<char>>| q.len() >= 4 && q[0] == k1@ && q[1] == k2@ && q[2] == k3@ ==> !(
        #[trigger] doc_has(*final(v), q)),
        forall|q: Seq<Seq<char>>|
            q.len() >= 1 && (q[0] != k1@ || (q.len() >= 2 && (q[1] != k2@ || (q.len() >= 3
                && q[2] != k3@)))) ==> #[trigger] doc_node_at(*final(v), q) == doc_node_at(
                *old(v),
                q,
            ),
        doc_round_trips(*old(v)) ==> doc_round_trips(*final(v)),
        !r ==> forall|q: Seq<Seq<char>>| #[trigger] doc_str_at(*final(v), q) == doc_str_at(
            *old(v),
            q,
        ),
        !r ==> forall|q: Seq<Seq<char>>| #[trigger] doc_has(*final(v), q) == doc_has(*old(v), q),
        !r ==> forall|q: Seq<Seq<char>>| #[trigger] doc_node_at(*final(v), q) == doc_node_at(
            *old(v),
            q,
        ),
{
    match v.get_mut(k1) {
        Some(a) => match a.get_mut(k2) {
            Some(b) => match b.as_table_mut() {
                Some(table) => {
                    table.insert(k3.to_owned(), toml::Value::String(s.to_owned()));
                    true
                },
                None => false,
            },
            None => false,
        },
        None => false,
    }
}

/// The string at `[k1, k2]` of a parsed document.
pub(crate) fn doc_str2(v: &toml::Value, k1: &str, k2: &str) -> (r: Option<String>)
    ensures
        r is Some <==> doc_str_at(*v, seq![k1@, k2@]) is Some,
        r matches Some(s) ==> doc_str_at(*v, seq![k1@, k2@]) == Some(s@),
        r is Some ==> doc_has(*v, seq![k1@, k2@]),
{
    let ghost path = seq![k1@, k2@];
    proof {
        assert(path.len() == 2 && path[0] == k1@);
        assert(path.drop_first() =~= seq![k2@]);
    }
    match toml_get(v, k1) {
        None => {
            proof {
                assert(doc_str_at(*v, path) is None);
            }
            None
        },
        Some(p1) => {
            proof {
                assert(doc_str_at(*v, path) == doc_str_at(*p1, seq![k2@]));
                assert(doc_has(*v, path) == doc_has(*p1, seq![k2@]));
                assert(seq![k2@].len() == 1 && seq![k2@][0] == k2@);
                assert(seq![k2@].drop_first() =~= Seq::<Seq<char>>::empty());
            }
            match toml_get(p1, k2) {
                None => {
                    proof {
                        assert(doc_str_at(*p1, seq![k2@]) is None);
                    }
                    None
                },
                Some(p2) => {
                    proof {
                        assert(doc_str_at(*p1, seq![k2@]) == doc_str_at(
                            *p2,
                            Seq::empty(),
                        ));
                    }
                    toml_as_str(p2)
                },
            }
        },
    }
}

/// The string at `[k1, k2, k3]` of a parsed document.
pub(crate) fn doc_str3(v: &toml::Value, k1: &str, k2: &str, k3: &str) -> (r: Option<String>)
    ensures
        r is Some <==> doc_str_at(*v, seq![k1@, k2@, k3@]) is Some,
        r matches Some(s) ==> doc_str_at(*v, seq![k1@, k2@, k3@]) == Some(s@),
        r is Some ==> doc_has(*v, seq![k1@, k2@, k3@]),
{
    let ghost path = seq![k1@, k2@, k3@];
    proof {
        assert(path.len() == 3 && path[0] == k1@);
        assert(path.drop_first() =~= seq![k2@, k3@]);
    }
    match toml_get(v, k1) {
        None => {
            proof {
                assert(doc_str_at(*v, path) is None);
            }
            None
        },
        Some(p1) => {
            proof {
                assert(doc_str_at(*v, path) == doc_str_at(*p1, seq![k2@, k3@]));
                assert(doc_has(*v, path) == doc_has(*p1, seq![k2@, k3@]));
            }
            let r = doc_str2(p1, k2, k3);
            r
        },
    }
}

/// Whether a parsed document has a value at the given single key.
pub(crate) fn doc_has_key(v: &toml::Value, key: &str) -> (r: bool)
    ensures
        r == doc_has(*v, seq![key@]),
{
    let g = toml_get(v, key);
    g.is_some()
}

/// The key path of the package section.
pub open spec fn package_path() -> Seq<Seq<char>> {
    seq!["package"@]
}

/// The key path of the package name.
pub open spec fn package_name_path() -> Seq<Seq<char>> {
    seq!["package"@, "name"@]
}

/// The key path of the package version.
pub open spec fn package_version_path() -> Seq<Seq<char>> {
    seq!["package"@, "version"@]
}

/// The key path of the workspace section.
pub open spec fn workspace_path() -> Seq<Seq<char>> {
    seq!["workspace"@]
}

/// The key path of the workspace's shared package version.
pub open spec fn workspace_version_path() -> Seq<Seq<char>> {
    seq!["workspace"@, "package"@, "version"@]
}

/// Whether the name filters leave this package out: it is on the
/// exclude-list, or an only-list is set and it is not on it.
pub open spec fn skipped_by_filters(
    name: Seq<char>,
    exclude: Seq<Seq<char>>,
    only: Seq<Seq<char>>,
) -> bool {
    (exclude.len() > 0 && exclude.contains(name)) || (only.len() > 0 && !only.contains(name))
}

/// The outcome of rewriting one manifest.
#[derive(Debug, Clone, PartialEq, Eq)]
pub enum CrateOutcome {
    /// The manifest has no package section; nothing to do.
    NoPackage,
    /// The package was left alone because a name filter said so.
    Skipped { name: String },
    /// The package's version was rewritten; the new text is to be written back.
    Updated { name: String, old_version: String, new_content: String },
}

/// What a successful rewrite outcome says about the manifest text it came
/// from: which case applies, and, for an update, that the new text carries
/// the new version and every other key path unchanged.
pub open spec fn crate_outcome_describes(
    c: Seq<char>,
    ver: Seq<char>,
    exclude: Seq<Seq<char>>,
    only: Seq<Seq<char>>,
    out: CrateOutcome,
) -> bool {
    match out {
        CrateOutcome::NoPackage => toml_parses(c) && !toml_has_at(c, package_path()),
        CrateOutcome::Skipped { name } => {
            &&& toml_parses(c)
            &&& toml_has_at(c, package_path())
            &&& toml_str_at(c, package_name_path()) == Some(name@)
            &&& toml_str_at(c, package_version_path()) is Some
            &&& skipped_by_filters(name@, exclude, only)
        },
        CrateOutcome::Updated { name, old_version, new_content } => {
            &&& toml_parses(c)
            &&& toml_has_at(c, package_path())
            &&& toml_str_at(c, package_name_path()) == Some(name@)
            &&& toml_str_at(c, package_version_path()) == Some(old_version@)
            &&& !skipped_by_filters(name@, exclude, only)
            &&& toml_parses(new_content@)
            &&& toml_str_at(new_content@, package_version_path()) == Some(ver)
            &&& toml_has_at(new_content@, package_version_path())
            &&& (forall|q: Seq<Seq<char>>|
                !(q.len() >= 2 && q[0] == "package"@ && q[1] == "version"@)
                    ==> #[trigger] toml_str_at(new_content@, q) == toml_str_at(c, q))
            &&& (forall|q: Seq<Seq<char>>|
                !(q.len() >= 2 && q[0] == "package"@ && q[1] == "version"@)
                    ==> #[trigger] toml_has_at(new_content@, q) == toml_has_at(c, q))
            &&& (forall|q: Seq<Seq<char>>|
                q.len() >= 1 && (q[0] != "package"@ || (q.len() >= 2 && q[1] != "version"@))
                    ==> #[trigger] toml_node_at(new_content@, q) == toml_node_at(c, q))
        },
    }
}

/// What a failed rewrite says about the manifest text: the text does not
/// parse, or a present package section misses its name or version string.
pub open spec fn crate_update_fails(c: Seq<char>, e: crate::ReleaseError) -> bool {
    match e {
        crate::ReleaseError::ManifestParse => !toml_parses(c) || (toml_has_at(c, package_path())
            && (toml_str_at(c, package_name_path()) is None || toml_str_at(
            c,
            package_version_path(),
        ) is None)),
        _ => false,
    }
}

/// Whether a manifest text makes the single-manifest rewrite fail: it does
/// not parse, or its package section misses name or version.
pub open spec fn member_file_fails(c: Seq<char>) -> bool {
    !toml_parses(c) || (toml_has_at(c, package_path()) && (toml_str_at(
        c,
        package_name_path(),
    ) is None || toml_str_at(c, package_version_path()) is None))
}

/// Whether a manifest text is actually rewritten: it parses, carries a
/// package name and version, and no filter leaves the name out.
pub open spec fn member_would_update(
    c: Seq<char>,
    exclude: Seq<Seq<char>>,
    only: Seq<Seq<char>>,
) -> bool {
    &&& toml_parses(c)
    &&& toml_has_at(c, package_path())
    &&& toml_str_at(c, package_name_path()) is Some
    &&& toml_str_at(c, package_version_path()) is Some
    &&& !skipped_by_filters(toml_str_at(c, package_name_path())->Some_0, exclude, only)
}

/// The paths of the files that a workspace pass rewrites, in order: exactly
/// those whose manifest the filters let through.
pub open spec fn updated_paths_of(
    files: Seq<(String, String)>,
    exclude: Seq<Seq<char>>,
    only: Seq<Seq<char>>,
) -> Seq<Seq<char>>
    decreases files.len(),
{
    if files.len() == 0 {
        Seq::empty()
    } else {
        updated_paths_of(files.drop_last(), exclude, only) + (if member_would_update(
            files.last().1@,
            exclude,
            only,
        ) {
            seq![files.last().0@]
        } else {
            Seq::empty()
        })
    }
}

/// A package on the exclude-list is never rewritten.
pub proof fn lemma_excluded_is_not_updated(
    c: Seq<char>,
    ver: Seq<char>,
    exclude: Seq<Seq<char>>,
    only: Seq<Seq<char>>,
    out: CrateOutcome,
    name: Seq<char>,
)
    requires
        crate_outcome_describes(c, ver, exclude, only, out),
        toml_str_at(c, package_name_path()) == Some(name),
        exclude.contains(name),
    ensures
        !(out is Updated),
{
    if out is Updated {
        assert(exclude.len() > 0);
    }
}

/// With an only-list set, a package not on it is never rewritten, excluded
/// or not.
pub proof fn lemma_off_only_list_is_not_updated(
    c: Seq<char>,
    ver: Seq<char>,
    exclude: Seq<Seq<char>>,
    only: Seq<Seq<char>>,
    out: CrateOutcome,
    name: Seq<char>,
)
    requires
        crate_outcome_describes(c, ver, exclude, only, out),
        toml_str_at(c, package_name_path()) == Some(name),
        only.len() > 0,
        !only.contains(name),
    ensures
        !(out is Updated),
{
}

/// A package that no filter leaves out, in a manifest whose package section
/// carries name and version, is rewritten whenever the outcome is a success.
pub proof fn lemma_unfiltered_is_updated(
    c: Seq<char>,
    ver: Seq<char>,
    exclude: Seq<Seq<char>>,
    only: Seq<Seq<char>>,
    out: CrateOutcome,
    name: Seq<char>,
)
    requires
        crate_outcome_describes(c, ver, exclude, only, out),
        toml_has_at(c, package_path()),
        toml_str_at(c, package_name_path()) == Some(name),
        !skipped_by_filters(name, exclude, only),
    ensures
        out is Updated,
{
}

/// Rewriting a manifest's version leaves the value and presence of every
/// other key path as the original text had them.
pub proof fn lemma_rewrite_preserves_other_paths(
    c: Seq<char>,
    ver: Seq<char>,
    exclude: Seq<Seq<char>>,
    only: Seq<Seq<char>>,
    out: CrateOutcome,
    q: Seq<Seq<char>>,
)
    requires
        crate_outcome_describes(c, ver, exclude, only, out),
        out is Updated,
        q.len() >= 1 && (q[0] != "package"@ || (q.len() >= 2 && q[1] != "version"@)),
    ensures
        toml_parses((out->Updated_new_content)@),
        toml_str_at((out->Updated_new_content)@, q) == toml_str_at(c, q),
        toml_has_at((out->Updated_new_content)@, q) == toml_has_at(c, q),
        toml_node_at((out->Updated_new_content)@, q) == toml_node_at(c, q),
        toml_str_at((out->Updated_new_content)@, package_version_path()) == Some(ver),
{
}

/// The paths of the members that a list of rewrite outcomes updated, in order.
pub open spec fn member_deltas(list: Seq<(String, CrateOutcome)>) -> Seq<Seq<char>>
    decreases list.len(),
{
    if list.len() == 0 {
        Seq::empty()
    } else {
        member_deltas(list.drop_last()) + (match list.last().1 {
            CrateOutcome::Updated { .. } => seq![list.last().0@],
            _ => Seq::empty(),
        })
    }
}

/// A path reaches the updated-files log of a workspace pass only through an
/// outcome that actually rewrote that file: skipped and package-less
/// manifests are never logged.
pub proof fn lemma_deltas_come_from_updates(list: Seq<(String, CrateOutcome)>, p: Seq<char>)
    requires
        member_deltas(list).contains(p),
    ensures
        exists|i: int|
            0 <= i < list.len() && (#[trigger] list[i]).0@ == p && list[i].1 is Updated,
    decreases list.len(),
{
    if list.len() > 0 {
        let front = member_deltas(list.drop_last());
        let tail = if list.last().1 is Updated {
            seq![list.last().0@]
        } else {
            Seq::<Seq<char>>::empty()
        };
        assert(member_deltas(list) == front + tail);
        let k = choose|k: int|
            0 <= k < member_deltas(list).len() && member_deltas(list)[k] == p;
        if k < front.len() {
            assert(front[k] == p);
            assert(front.contains(p));
            lemma_deltas_come_from_updates(list.drop_last(), p);
            let i = choose|i: int|
                0 <= i < list.drop_last().len() && (#[trigger] list.drop_last()[i]).0@ == p
                    && list.drop_last()[i].1 is Updated;
            assert(list[i] == list.drop_last()[i]);
            assert((list[i]).0@ == p && list[i].1 is Updated);
        } else {
            assert(tail[k - front.len()] == p);
            assert((list[list.len() - 1]).0@ == p && list[list.len() - 1].1 is Updated);
        }
    }
}

} // verus!
