//! CLI profiles: a named collection of server configurations, one of which
//! is selected. Saving a profile replaces a same-named one only when
//! overwriting is allowed, collapses adjacent same-named entries, deselects
//! the rest, and appends the new profile as the selected one.

use vstd::prelude::*;

verus! {

/// One server configuration: the api key, the organization in whose scope
/// requests run, and the server's base address.
#[derive(Debug, Clone)]
pub struct ActixTemplateConfiguration {
    pub api_key: String,
    pub org_id: String,
    pub api_url: String,
}

impl ActixTemplateConfiguration {
    pub fn copy(&self) -> (r: Self)
        ensures
            r == *self,
    {
        ActixTemplateConfiguration {
            api_key: self.api_key.clone(),
            org_id: self.org_id.clone(),
            api_url: self.api_url.clone(),
        }
    }
}

impl Default for ActixTemplateConfiguration {
    /// The default configuration: empty credentials against a local server.
    fn default() -> (r: Self)
        ensures
            r.api_key@ == Seq::<char>::empty(),
            r.org_id@ == Seq::<char>::empty(),
            r.api_url@ == "http://localhost:8090"@,
    {
        ActixTemplateConfiguration {
            api_key: String::new(),
            org_id: String::new(),
            api_url: String::from_str("http://localhost:8090"),
        }
    }
}

/// One named profile.
#[derive(Debug, Clone)]
pub struct ActixTemplateProfileInner {
    pub name: String,
    pub settings: ActixTemplateConfiguration,
    pub selected: bool,
}

impl ActixTemplateProfileInner {
    pub fn copy(&self) -> (r: Self)
        ensures
            r == *self,
    {
        ActixTemplateProfileInner {
            name: self.name.clone(),
            settings: self.settings.copy(),
            selected: self.selected,
        }
    }
}

impl Default for ActixTemplateProfileInner {
    /// The default profile: named "default", deselected, with the default
    /// configuration.
    fn default() -> (r: Self)
        ensures
            r.name@ == "default"@,
            !r.selected,
            r.settings.api_key@ == Seq::<char>::empty(),
            r.settings.org_id@ == Seq::<char>::empty(),
            r.settings.api_url@ == "http://localhost:8090"@,
    {
        ActixTemplateProfileInner {
            name: String::from_str("default"),
            settings: ActixTemplateConfiguration::default(),
            selected: false,
        }
    }
}

/// The stored collection of profiles.
#[derive(Debug, Clone)]
pub struct ActixTemplateProfile {
    pub inner: Vec<ActixTemplateProfileInner>,
}

impl Default for ActixTemplateProfile {
    /// The default collection: one default profile.
    fn default() -> (r: Self)
        ensures
            r.inner@.len() == 1,
            r.inner@[0].name@ == "default"@,
            !r.inner@[0].selected,
    {
        let mut inner: Vec<ActixTemplateProfileInner> = Vec::new();
        inner.push(ActixTemplateProfileInner::default());
        ActixTemplateProfile { inner }
    }
}

/// The ways selecting an organization for a profile can fail.
#[derive(Debug, Clone, Copy, PartialEq, Eq, Structural)]
pub enum OrgSelectError {
    /// The caller belongs to no organization yet.
    NoOrgs,
    /// The caller cancelled the selection.
    CancelInput,
    /// The organizations could not be fetched.
    OrgFetchFailure,
}

/// What the login flow does after the organization selection came back.
#[derive(Debug, Clone, PartialEq)]
pub enum OrgStep {
    /// Scope the profile to the selected organization.
    UseOrg(String),
    /// Create a first organization and scope the profile to it.
    CreateOrg,
    /// Give the login up: the selection was cancelled.
    Cancelled,
    /// Give the login up: the organizations could not be fetched.
    FetchFailed,
}

/// The next step of the login flow for each outcome of the organization
/// selection: a selected organization is used, an empty account gets a
/// first organization, and the two failures end the flow.
pub fn next_org_step(potential: Result<String, OrgSelectError>) -> (r: OrgStep)
    ensures
        r == match potential {
            Ok(id) => OrgStep::UseOrg(id),
            Err(OrgSelectError::NoOrgs) => OrgStep::CreateOrg,
            Err(OrgSelectError::CancelInput) => OrgStep::Cancelled,
            Err(OrgSelectError::OrgFetchFailure) => OrgStep::FetchFailed,
        },
{
    match potential {
        Ok(id) => OrgStep::UseOrg(id),
        Err(OrgSelectError::NoOrgs) => OrgStep::CreateOrg,
        Err(OrgSelectError::CancelInput) => OrgStep::Cancelled,
        Err(OrgSelectError::OrgFetchFailure) => OrgStep::FetchFailed,
    }
}

/// Whether some profile carries the name.
pub open spec fn has_profile(s: Seq<ActixTemplateProfileInner>, name: Seq<char>) -> bool {
    exists|i: int| 0 <= i < s.len() && (#[trigger] s[i]).name@ == name
}

/// The predicate that keeps every profile not carrying the name.
pub open spec fn other_name(name: Seq<char>) -> spec_fn(ActixTemplateProfileInner) -> bool {
    |p: ActixTemplateProfileInner| p.name@ != name
}

/// The profiles with all same-named runs collapsed to their first entry.
pub open spec fn dedup_by_name(s: Seq<ActixTemplateProfileInner>) -> Seq<ActixTemplateProfileInner>
    decreases s.len(),
{
    if s.len() <= 1 {
        s
    } else if s[s.len() - 1].name@ == s[s.len() - 2].name@ {
        dedup_by_name(s.drop_last())
    } else {
        dedup_by_name(s.drop_last()).push(s.last())
    }
}

/// The profile with its selection cleared.
pub open spec fn deselected(p: ActixTemplateProfileInner) -> ActixTemplateProfileInner {
    ActixTemplateProfileInner { selected: false, ..p }
}

/// The profiles with every selection cleared.
pub open spec fn deselect_all(s: Seq<ActixTemplateProfileInner>) -> Seq<ActixTemplateProfileInner> {
    s.map_values(|p: ActixTemplateProfileInner| deselected(p))
}

/// Saves a profile under a name, as the login flow does. When the name is
/// already taken and overwriting was declined, nothing changes and the save
/// reports `false`. Otherwise same-named profiles leave, adjacent same-named
/// duplicates collapse to their first entry, every remaining profile is
/// deselected, and the new profile is appended selected.
pub fn save_profile(
    profiles: &mut ActixTemplateProfile,
    profile_name: String,
    settings: ActixTemplateConfiguration,
    overwrite: bool,
) -> (saved: bool)
    ensures
        saved == !(has_profile(old(profiles).inner@, profile_name@) && !overwrite),
        !saved ==> final(profiles).inner@ == old(profiles).inner@,
        saved ==> final(profiles).inner@ == deselect_all(
            dedup_by_name(old(profiles).inner@.filter(other_name(profile_name@))),
        ).push(
            (ActixTemplateProfileInner { name: profile_name, settings, selected: true }),
        ),
{
    let ghost pred = other_name(profile_name@);
    let mut exists_named = false;
    let mut i: usize = 0;
    while i < profiles.inner.len()
        invariant
            i <= profiles.inner@.len(),
            profiles.inner@ == old(profiles).inner@,
            exists_named == has_profile(profiles.inner@.take(i as int), profile_name@),
        decreases profiles.inner@.len() - i,
    {
        let ghost prefix = profiles.inner@.take(i as int);
        if profiles.inner[i].name == profile_name {
            exists_named = true;
        }
        proof {
            assert(profiles.inner@.take(i + 1) =~= prefix.push(profiles.inner@[i as int]));
            if profiles.inner@[i as int].name@ == profile_name@ {
                assert(profiles.inner@.take(i + 1)[i as int].name@ == profile_name@);
            } else if exists_named {
                let k = choose|k: int| 0 <= k < prefix.len() && (#[trigger] prefix[k]).name@
                    == profile_name@;
                assert(profiles.inner@.take(i + 1)[k].name@ == profile_name@);
            } else {
                assert forall|k: int| 0 <= k < i + 1
                    implies (#[trigger] profiles.inner@.take(i + 1)[k]).name@ != profile_name@ by {
                    if k < i {
                        assert(profiles.inner@.take(i + 1)[k] == prefix[k]);
                    }
                }
            }
        }
        i += 1;
    }
    proof {
        assert(profiles.inner@.take(profiles.inner@.len() as int) =~= profiles.inner@);
    }
    if exists_named && !overwrite {
        return false;
    }
    let ghost pre = profiles.inner@;

    // Keep the profiles under other names.
    let mut kept: Vec<ActixTemplateProfileInner> = Vec::new();
    let mut i: usize = 0;
    while i < profiles.inner.len()
        invariant
            i <= profiles.inner@.len(),
            profiles.inner@ == pre,
            pred == other_name(profile_name@),
            kept@ == pre.take(i as int).filter(pred),
        decreases pre.len() - i,
    {
        if !(profiles.inner[i].name == profile_name) {
            kept.push(profiles.inner[i].copy());
        }
        proof {
            crate::pagination::lemma_filter_take_step(pre, pred, i as int);
        }
        i += 1;
    }
    proof {
        assert(pre.take(pre.len() as int) =~= pre);
    }

    // Collapse adjacent same-named duplicates to their first entry.
    let ghost retained = kept@;
    let mut deduped: Vec<ActixTemplateProfileInner> = Vec::new();
    let mut i: usize = 0;
    while i < kept.len()
        invariant
            i <= kept@.len(),
            kept@ == retained,
            deduped@ == dedup_by_name(retained.take(i as int)),
        decreases retained.len() - i,
    {
        if i == 0 || !(kept[i].name == kept[i - 1].name) {
            deduped.push(kept[i].copy());
        }
        proof {
            let t = retained.take(i + 1);
            assert(t.drop_last() =~= retained.take(i as int));
            assert(t.last() == retained[i as int]);
            if i > 0 {
                assert(t[t.len() - 2] == retained[i - 1]);
            }
        }
        i += 1;
    }
    proof {
        assert(retained.take(retained.len() as int) =~= retained);
    }

    // Deselect everything that stays.
    let ghost collapsed = deduped@;
    let mut cleared: Vec<ActixTemplateProfileInner> = Vec::new();
    let mut i: usize = 0;
    while i < deduped.len()
        invariant
            i <= deduped@.len(),
            deduped@ == collapsed,
            cleared@ == deselect_all(collapsed.take(i as int)),
        decreases collapsed.len() - i,
    {
        let p = deduped[i].copy();
        cleared.push(ActixTemplateProfileInner { selected: false, ..p });
        proof {
            assert(cleared@ =~= deselect_all(collapsed.take(i + 1))) by {
                assert(collapsed.take(i + 1) =~= collapsed.take(i as int).push(collapsed[i as int]));
            }
        }
        i += 1;
    }
    proof {
        assert(collapsed.take(collapsed.len() as int) =~= collapsed);
    }

    cleared.push(ActixTemplateProfileInner { name: profile_name, settings, selected: true });
    profiles.inner = cleared;
    true
}

} // verus!
