//! The pseudo-project: a synthetic build manifest used as a scratch
//! workspace to drive dependency resolution and vendoring.
//!
//! The manifest is staged through two states. `PseudoCrate` is the dirty
//! state, on which only mutation is valid; `VendoredPseudoCrate` is the
//! freshly vendored state, on which the read operations are valid. Vendoring
//! consumes the dirty value and a further mutation consumes the vendored one,
//! so a read can never see stale resolution results.

use vstd::prelude::*;

use crate::Error;
use crate::names::{clone_names, contains_name, str_eq};
use crate::version::{req_rep, Version, VersionReq};

verus! {

/// One manifest entry: a dependency name and its requested constraint.
pub struct ManifestEntry {
    pub name: String,
    pub req: VersionReq,
}

impl ManifestEntry {
    /// Renders the entry as one manifest line: the name, then the quoted
    /// constraint.
    pub fn render(&self) -> (s: String)
        ensures
            s@ == self.name@ + " = \""@ + req_rep(self.req) + "\""@,
    {
        let mut s = self.name.clone();
        s.append(" = \"");
        let req = self.req.render();
        s.append(req.as_str());
        s.append("\"");
        s
    }
}

/// The names of the entries of a manifest, in order.
pub open spec fn entry_names(m: Seq<ManifestEntry>) -> Seq<Seq<char>> {
    Seq::new(m.len(), |i: int| m[i].name@)
}

/// Whether the manifest `m` holds an entry named `n`.
pub open spec fn manifest_contains(m: Seq<ManifestEntry>, n: Seq<char>) -> bool {
    contains_name(entry_names(m), n)
}

/// The manifest `m` with its first entry named `n` taken out.
pub open spec fn spec_remove_first(m: Seq<ManifestEntry>, n: Seq<char>) -> Seq<ManifestEntry>
    decreases m.len(),
{
    if m.len() == 0 {
        m
    } else if m[0].name@ == n {
        m.drop_first()
    } else {
        seq![m[0]] + spec_remove_first(m.drop_first(), n)
    }
}

/// The manifest entries that register each of the given names with no
/// version, in order.
pub open spec fn unversioned_entries(s: Seq<String>) -> Seq<ManifestEntry> {
    Seq::new(s.len(), |i: int| ManifestEntry { name: s[i], req: VersionReq::Unversioned })
}

/// One resolved package and its direct dependencies, as the external
/// resolver reports them.
pub struct DepEntry {
    pub name: String,
    pub deps: Vec<String>,
}

/// The external resolver's joint answer for everything in the manifest: for
/// each resolved package, its direct dependencies.
pub struct Resolution {
    pub dep_table: Vec<DepEntry>,
}

impl Resolution {
    /// The direct dependencies the resolution gives for `name`.
    pub fn deps_of(&self, name: &String) -> (r: Vec<String>)
        ensures
            r.deep_view() == spec_deps_of(self.dep_table@, name@),
    {
        let t = &self.dep_table;
        assert(t@.skip(0) =~= t@);
        let mut i: usize = 0;
        while i < t.len()
            invariant
                0 <= i <= t@.len(),
                spec_deps_of(t@, name@) == spec_deps_of(t@.skip(i as int), name@),
                t@ == self.dep_table@,
            decreases t.len() - i,
        {
            proof {
                assert(t@.skip(i as int)[0] == t@[i as int]);
                assert(t@.skip(i as int).drop_first() =~= t@.skip(i + 1));
            }
            if str_eq(&t[i].name, name) {
                assert(spec_deps_of(t@.skip(i as int), name@) == t@[i as int].deps.deep_view());
                let r = clone_names(&t[i].deps);
                return r;
            }
            i += 1;
        }
        proof {
            assert(t@.skip(t@.len() as int) =~= Seq::<DepEntry>::empty());
        }
        Vec::new()
    }
}

/// The direct dependencies that the resolution gives for `n`: those of the
/// first table entry named `n`, and none for a package the table does not
/// name.
pub open spec fn spec_deps_of(t: Seq<DepEntry>, n: Seq<char>) -> Seq<Seq<char>>
    decreases t.len(),
{
    if t.len() == 0 {
        Seq::<Seq<char>>::empty()
    } else if t[0].name@ == n {
        t[0].deps.deep_view()
    } else {
        spec_deps_of(t.drop_first(), n)
    }
}

/// Whether the name set `s` is closed under the resolution's dependencies,
/// up to the stop names (those already in the manifest or in the legacy
/// area, which a closure discovery does not enter).
pub open spec fn closed_under_deps(
    t: Seq<DepEntry>,
    stops_a: Seq<Seq<char>>,
    stops_b: Seq<Seq<char>>,
    s: Set<Seq<char>>,
) -> bool {
    forall|x: Seq<char>, k: int|
        s.contains(x) && 0 <= k < spec_deps_of(t, x).len() ==> s.contains(
            #[trigger] spec_deps_of(t, x)[k],
        ) || contains_name(stops_a, spec_deps_of(t, x)[k]) || contains_name(
            stops_b,
            spec_deps_of(t, x)[k],
        )
}

/// Every name the resolution mentions: resolved packages and their
/// dependencies.
pub open spec fn table_universe(t: Seq<DepEntry>) -> Set<Seq<char>>
    decreases t.len(),
{
    if t.len() == 0 {
        Set::<Seq<char>>::empty()
    } else {
        table_universe(t.drop_first()).insert(t[0].name@).union(t[0].deps.deep_view().to_set())
    }
}

/// The universe of a resolution is finite.
pub proof fn lemma_table_universe_finite(t: Seq<DepEntry>)
    ensures
        table_universe(t).finite(),
    decreases t.len(),
{
    broadcast use vstd::seq_lib::seq_to_set_is_finite;

    if t.len() > 0 {
        lemma_table_universe_finite(t.drop_first());
    }
}

/// Whatever the resolution answers for any name lies inside its universe.
pub proof fn lemma_deps_of_in_universe(t: Seq<DepEntry>, n: Seq<char>)
    ensures
        forall|i: int|
            0 <= i < spec_deps_of(t, n).len() ==> table_universe(t).contains(
                #[trigger] spec_deps_of(t, n)[i],
            ),
    decreases t.len(),
{
    broadcast use vstd::set::group_set_axioms;

    if t.len() > 0 {
        if t[0].name@ == n {
            assert forall|i: int| 0 <= i < spec_deps_of(t, n).len() implies table_universe(
                t,
            ).contains(#[trigger] spec_deps_of(t, n)[i]) by {
                let e = spec_deps_of(t, n)[i];
                assert(t[0].deps.deep_view().contains(e));
                assert(t[0].deps.deep_view().to_set().contains(e));
            }
        } else {
            lemma_deps_of_in_universe(t.drop_first(), n);
            assert(spec_deps_of(t, n) == spec_deps_of(t.drop_first(), n));
            assert forall|i: int| 0 <= i < spec_deps_of(t, n).len() implies table_universe(
                t,
            ).contains(#[trigger] spec_deps_of(t, n)[i]) by {
                assert(table_universe(t.drop_first()).contains(spec_deps_of(t.drop_first(), n)[i]));
            }
        }
    }
}

/// The pseudo-project in its dirty state: the manifest may not match what is
/// vendored on disk, so only mutation is valid.
pub struct PseudoCrate {
    pub manifest: Vec<ManifestEntry>,
}

impl PseudoCrate {
    /// Takes up the manifest as it stands.
    pub fn new(manifest: Vec<ManifestEntry>) -> (r: PseudoCrate)
        ensures
            r.manifest@ == manifest@,
    {
        PseudoCrate { manifest }
    }

    /// The names the manifest holds, in order.
    pub fn names(&self) -> (r: Vec<String>)
        ensures
            r.deep_view() == entry_names(self.manifest@),
    {
        let mut r: Vec<String> = Vec::new();
        let mut i: usize = 0;
        while i < self.manifest.len()
            invariant
                0 <= i <= self.manifest.len(),
                r@.len() == i,
                forall|k: int| 0 <= k < i ==> r.deep_view()[k] == self.manifest@[k].name@,
            decreases self.manifest.len() - i,
        {
            let ghost old_r = r.deep_view();
            let c = self.manifest[i].name.clone();
            r.push(c);
            assert(r.deep_view() =~= old_r.push(self.manifest@[i as int].name@));
            i += 1;
        }
        assert(r.deep_view() =~= entry_names(self.manifest@));
        r
    }

    /// A copy of the manifest as it stands, entry for entry.
    pub fn snapshot(&self) -> (r: Vec<ManifestEntry>)
        ensures
            r@ == self.manifest@,
    {
        let mut r: Vec<ManifestEntry> = Vec::new();
        let mut i: usize = 0;
        while i < self.manifest.len()
            invariant
                0 <= i <= self.manifest.len(),
                r@.len() == i,
                forall|k: int| 0 <= k < i ==> r@[k] == self.manifest@[k],
            decreases self.manifest.len() - i,
        {
            r.push(
                ManifestEntry {
                    name: self.manifest[i].name.clone(),
                    req: self.manifest[i].req.duplicate(),
                },
            );
            i += 1;
        }
        assert(r@ =~= self.manifest@);
        r
    }

    /// Adds a dependency pinned to one exact version.
    pub fn cargo_add(&mut self, name: &String, version: Version)
        requires
            !manifest_contains(old(self).manifest@, name@),
        ensures
            final(self).manifest@ == old(self).manifest@.push(
                ManifestEntry { name: *name, req: VersionReq::Exact(version) },
            ),
    {
        self.manifest.push(ManifestEntry { name: name.clone(), req: VersionReq::Exact(version) });
    }

    /// Adds a dependency with an open constraint compatible with `version`.
    pub fn cargo_add_unpinned(&mut self, name: &String, version: Version)
        requires
            !manifest_contains(old(self).manifest@, name@),
        ensures
            final(self).manifest@ == old(self).manifest@.push(
                ManifestEntry { name: *name, req: VersionReq::Compatible(version) },
            ),
    {
        self.manifest.push(
            ManifestEntry { name: name.clone(), req: VersionReq::Compatible(version) },
        );
    }

    /// Adds a dependency with no version given, letting the resolver pick.
    pub fn cargo_add_unversioned(&mut self, name: &String)
        requires
            !manifest_contains(old(self).manifest@, name@),
        ensures
            final(self).manifest@ == old(self).manifest@.push(
                ManifestEntry { name: *name, req: VersionReq::Unversioned },
            ),
    {
        self.manifest.push(ManifestEntry { name: name.clone(), req: VersionReq::Unversioned });
    }

    /// Removes the entry named `name`. Removing an absent name fails and
    /// leaves the manifest as it was.
    pub fn remove(&mut self, name: &String) -> (r: Result<(), Error>)
        ensures
            r is Ok <==> manifest_contains(old(self).manifest@, name@),
            r is Ok ==> final(self).manifest@ == spec_remove_first(old(self).manifest@, name@),
            r is Err ==> final(self).manifest@ == old(self).manifest@ && r matches Err(
                Error::IoFailure,
            ),
    {
        let mut i: usize = 0;
        while i < self.manifest.len()
            invariant
                0 <= i <= self.manifest.len(),
                self.manifest@ == old(self).manifest@,
                forall|k: int| 0 <= k < i ==> self.manifest@[k].name@ != name@,
            decreases self.manifest.len() - i,
        {
            if str_eq(&self.manifest[i].name, name) {
                proof {
                    assert(entry_names(self.manifest@)[i as int] == name@);
                    lemma_remove_first_at(self.manifest@, name@, i as int);
                }
                self.manifest.remove(i);
                return Ok(());
            }
            i += 1;
        }
        proof {
            assert forall|k: int| 0 <= k < entry_names(self.manifest@).len() implies entry_names(
                self.manifest@,
            )[k] != name@ by {
                assert(self.manifest@[k].name@ != name@);
            }
        }
        Err(Error::IoFailure)
    }

    /// Runs the external resolver and vendoring step: the manifest is
    /// resolved, the resolver's answer and the persisted crate-list file are
    /// taken up, and the project moves to its vendored state.
    pub fn vendor(self, resolution: Resolution, crate_list: Vec<String>) -> (r: VendoredPseudoCrate)
        ensures
            r.manifest@ == self.manifest@,
            r.resolution.dep_table@ == resolution.dep_table@,
            r.crate_list@ == crate_list@,
    {
        VendoredPseudoCrate { manifest: self.manifest, resolution, crate_list }
    }
}

/// The pseudo-project just after vendoring: the sources on disk are
/// consistent with the manifest, so the read operations are valid.
pub struct VendoredPseudoCrate {
    pub manifest: Vec<ManifestEntry>,
    pub resolution: Resolution,
    pub crate_list: Vec<String>,
}

impl VendoredPseudoCrate {
    /// The resolved dependency names of the pseudo-project: the names the
    /// manifest holds.
    pub fn deps(&self) -> (r: Vec<String>)
        ensures
            r.deep_view() == entry_names(self.manifest@),
    {
        let mut r: Vec<String> = Vec::new();
        let mut i: usize = 0;
        while i < self.manifest.len()
            invariant
                0 <= i <= self.manifest.len(),
                r@.len() == i,
                forall|k: int| 0 <= k < i ==> r.deep_view()[k] == self.manifest@[k].name@,
            decreases self.manifest.len() - i,
        {
            let ghost old_r = r.deep_view();
            let c = self.manifest[i].name.clone();
            r.push(c);
            assert(r.deep_view() =~= old_r.push(self.manifest@[i as int].name@));
            i += 1;
        }
        assert(r.deep_view() =~= entry_names(self.manifest@));
        r
    }

    /// The direct dependencies the resolution gives for `name`.
    pub fn deps_of(&self, name: &String) -> (r: Vec<String>)
        ensures
            r.deep_view() == spec_deps_of(self.resolution.dep_table@, name@),
    {
        self.resolution.deps_of(name)
    }

    /// Reads the persisted flat listing of managed crate names.
    pub fn read_crate_list(&self) -> (r: Vec<String>)
        ensures
            r.deep_view() == self.crate_list.deep_view(),
    {
        clone_names(&self.crate_list)
    }

    /// Rewrites the persisted crate list from the manifest, so the two agree
    /// again.
    pub fn regenerate_crate_list(&mut self)
        ensures
            final(self).crate_list.deep_view() == entry_names(old(self).manifest@),
            final(self).manifest@ == old(self).manifest@,
            final(self).resolution.dep_table@ == old(self).resolution.dep_table@,
    {
        let names = self.deps();
        self.crate_list = names;
    }

    /// Any manifest mutation invalidates the vendored guarantee: removing an
    /// entry hands back a dirty pseudo-project.
    pub fn remove(self, name: &String) -> (r: Result<PseudoCrate, Error>)
        ensures
            r is Ok <==> manifest_contains(self.manifest@, name@),
            r matches Ok(p) ==> p.manifest@ == spec_remove_first(self.manifest@, name@),
            r matches Err(e) ==> e matches Error::IoFailure,
    {
        let mut dirty = PseudoCrate { manifest: self.manifest };
        match dirty.remove(name) {
            Ok(()) => Ok(dirty),
            Err(e) => Err(e),
        }
    }
}

/// Removing the first entry named `n` takes out exactly the entry at the
/// first matching index.
proof fn lemma_remove_first_at(m: Seq<ManifestEntry>, n: Seq<char>, i: int)
    requires
        0 <= i < m.len(),
        m[i].name@ == n,
        forall|k: int| 0 <= k < i ==> m[k].name@ != n,
    ensures
        spec_remove_first(m, n) == m.remove(i),
    decreases i,
{
    if i == 0 {
        assert(m.drop_first() =~= m.remove(0));
    } else {
        lemma_remove_first_at(m.drop_first(), n, i - 1);
        assert(spec_remove_first(m, n) == seq![m[0]] + spec_remove_first(m.drop_first(), n));
        assert(seq![m[0]] + m.drop_first().remove(i - 1) =~= m.remove(i));
    }
}

/// The health probe leaves no residue in the manifest: registering a name
/// that is not yet present and then removing it again restores the manifest
/// exactly.
pub proof fn lemma_add_then_remove_restores(m: Seq<ManifestEntry>, e: ManifestEntry)
    requires
        !manifest_contains(m, e.name@),
    ensures
        spec_remove_first(m.push(e), e.name@) == m,
    decreases m.len(),
{
    if m.len() == 0 {
        assert(m.push(e)[0] == e);
        assert(m.push(e).drop_first() =~= m);
    } else {
        assert(entry_names(m)[0] == m[0].name@);
        assert(m[0].name@ != e.name@);
        assert(m.push(e)[0] == m[0]);
        assert(m.push(e).drop_first() =~= m.drop_first().push(e));
        assert(!manifest_contains(m.drop_first(), e.name@)) by {
            if manifest_contains(m.drop_first(), e.name@) {
                let j = choose|j: int|
                    0 <= j < entry_names(m.drop_first()).len() && entry_names(m.drop_first())[j]
                        == e.name@;
                assert(entry_names(m)[j + 1] == e.name@);
            }
        }
        lemma_add_then_remove_restores(m.drop_first(), e);
        assert(seq![m[0]] + m.drop_first() =~= m);
    }
}

} // verus!
