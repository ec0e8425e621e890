//! Instance discovery: recognising database containers by their image
//! signature and grouping them into a registry that maps each qualified
//! display name to its container identity.

use vstd::prelude::*;
use crate::naming::{ends_with, strip_spec, strip_name, has_db_suffix, str_eq};

verus! {

/// The image reference that identifies the application's database
/// containers.
pub open spec fn expected_image() -> Seq<char> {
    "postgres"@
}

/// The role suffix that singles out an instance's database container.
pub open spec fn db_role_suffix() -> Seq<char> {
    "postgres-db-1"@
}

/// What discovery learns about one container. The image is the result of
/// the inspection: `None` stands both for a container without an image in
/// its configuration and for an inspection that failed (a container that
/// vanished between listing and inspection), which discovery absorbs as a
/// non-match rather than an error.
#[derive(Clone, Debug, PartialEq)]
pub struct ContainerDescriptor {
    /// The host-assigned identity; entries without one are skipped as
    /// malformed.
    pub id: Option<String>,
    /// The display names the runtime reports, in order.
    pub names: Vec<String>,
    /// The image reference, when inspection succeeded and reported one.
    pub image: Option<String>,
}

/// The signature matcher: a container belongs to the application exactly
/// when its inspected image equals the expected reference. A missing image
/// — no configuration, or a failed inspection — is a non-match.
pub open spec fn signature_matches(image: Option<String>) -> bool {
    match image {
        Some(img) => img@ == expected_image(),
        None => false,
    }
}

/// The primary display name: the first reported name with leading
/// separators stripped, or the raw identity when no name is available.
pub open spec fn display_name(c: ContainerDescriptor) -> Seq<char> {
    if c.names@.len() > 0 {
        strip_spec(c.names@[0]@)
    } else {
        match c.id {
            Some(id) => id@,
            None => Seq::empty(),
        }
    }
}

/// A container enters the registry exactly when it has an identity, its
/// image matches the signature, and its display name carries the
/// database-role suffix.
pub open spec fn registry_eligible(c: ContainerDescriptor) -> bool {
    &&& c.id is Some
    &&& signature_matches(c.image)
    &&& ends_with(display_name(c), db_role_suffix())
}

/// The registry a container list gives rise to: eligible containers in
/// order, each mapping its display name to its identity, later containers
/// overwriting earlier ones that collide on the same name.
pub open spec fn spec_registry(s: Seq<ContainerDescriptor>) -> Map<Seq<char>, Seq<char>>
    decreases s.len(),
{
    if s.len() == 0 {
        Map::empty()
    } else {
        let m = spec_registry(s.drop_last());
        let c = s.last();
        if registry_eligible(c) {
            m.insert(display_name(c), (match c.id {
                Some(id) => id@,
                None => Seq::empty(),
            }))
        } else {
            m
        }
    }
}

/// The instance registry: qualified display name of a database container
/// to that container's identity.
#[derive(Clone, Debug, PartialEq)]
pub struct Registry {
    entries: Vec<(String, String)>,
}

/// The mapping an entry list denotes; a later entry with the same key
/// overwrites an earlier one.
pub closed spec fn entries_map(es: Seq<(String, String)>) -> Map<Seq<char>, Seq<char>>
    decreases es.len(),
{
    if es.len() == 0 {
        Map::empty()
    } else {
        entries_map(es.drop_last()).insert(es.last().0@, es.last().1@)
    }
}

impl View for Registry {
    type V = Map<Seq<char>, Seq<char>>;

    closed spec fn view(&self) -> Map<Seq<char>, Seq<char>> {
        entries_map(self.entries@)
    }
}

/// An entry with key `k` at `i`, unshadowed by any later entry, decides
/// both membership and the value of `k`.
proof fn lemma_entries_map_at(es: Seq<(String, String)>, k: Seq<char>, i: int)
    requires
        0 <= i < es.len(),
        es[i].0@ == k,
        forall|j: int| i < j < es.len() ==> es[j].0@ != k,
    ensures
        entries_map(es).contains_key(k),
        entries_map(es)[k] == es[i].1@,
    decreases es.len(),
{
    if i < es.len() - 1 {
        lemma_entries_map_at(es.drop_last(), k, i);
    }
}

/// A key occurs in the mapping exactly when some entry carries it.
proof fn lemma_entries_map_domain(es: Seq<(String, String)>, k: Seq<char>)
    ensures
        entries_map(es).contains_key(k) <==> exists|j: int|
            0 <= j < es.len() && es[j].0@ == k,
    decreases es.len(),
{
    if es.len() > 0 {
        lemma_entries_map_domain(es.drop_last(), k);
        if entries_map(es).contains_key(k) && es.last().0@ != k {
            let j = choose|j: int| 0 <= j < es.drop_last().len() && es.drop_last()[j].0@ == k;
            assert(es[j] == es.drop_last()[j]);
        }
        if exists|j: int| 0 <= j < es.len() && es[j].0@ == k {
            let j = choose|j: int| 0 <= j < es.len() && es[j].0@ == k;
            if j < es.len() - 1 {
                assert(es.drop_last()[j] == es[j]);
            }
        }
    }
}

impl Registry {
    /// An empty registry.
    pub fn new() -> (r: Registry)
        ensures
            r@ == Map::<Seq<char>, Seq<char>>::empty(),
    {
        Registry { entries: Vec::new() }
    }

    /// Records a discovered database container; an existing entry with the
    /// same name is overwritten (last seen wins).
    pub fn insert(&mut self, name: String, id: String)
        ensures
            final(self)@ == old(self)@.insert(name@, id@),
    {
        let ghost es = self.entries@;
        self.entries.push((name, id));
        proof {
            assert(self.entries@.drop_last() =~= es);
            assert(self.entries@.last() == (name, id));
        }
    }

    /// Looks an instance key up, returning its container identity exactly
    /// when the key is present.
    pub fn get(&self, name: &str) -> (r: Option<&String>)
        ensures
            match r {
                Some(id) => self@.contains_key(name@) && id@ == self@[name@],
                None => !self@.contains_key(name@),
            },
    {
        let mut i: usize = self.entries.len();
        while i > 0
            invariant
                i <= self.entries.len(),
                forall|j: int| i <= j < self.entries@.len() ==> self.entries@[j].0@ != name@,
            decreases i,
        {
            i = i - 1;
            if str_eq(self.entries[i].0.as_str(), name) {
                proof {
                    lemma_entries_map_at(self.entries@, name@, i as int);
                }
                return Some(&self.entries[i].1);
            }
        }
        proof {
            lemma_entries_map_domain(self.entries@, name@);
        }
        None
    }

    /// Whether any instance was discovered at all.
    pub fn is_empty(&self) -> (r: bool)
        ensures
            r == (self@.dom() =~= Set::<Seq<char>>::empty()),
    {
        proof {
            if self.entries@.len() > 0 {
                lemma_entries_map_at(
                    self.entries@,
                    self.entries@.last().0@,
                    self.entries@.len() - 1,
                );
            } else {
                assert(entries_map(self.entries@) =~= Map::<Seq<char>, Seq<char>>::empty());
            }
        }
        self.entries.len() == 0
    }

    /// The discovered instance keys, in discovery order: every listed key
    /// is in the registry, and every registry key is listed.
    pub fn keys(&self) -> (r: Vec<String>)
        ensures
            forall|i: int| 0 <= i < r@.len() ==> self@.contains_key(#[trigger] r@[i]@),
            forall|k: Seq<char>|
                self@.contains_key(k) ==> exists|i: int| 0 <= i < r@.len() && r@[i]@ == k,
    {
        let mut r: Vec<String> = Vec::new();
        let mut i: usize = 0;
        while i < self.entries.len()
            invariant
                i <= self.entries@.len(),
                r@.len() == i,
                forall|j: int| 0 <= j < i ==> r@[j]@ == self.entries@[j].0@,
            decreases self.entries@.len() - i,
        {
            r.push(self.entries[i].0.clone());
            i += 1;
        }
        proof {
            assert forall|i2: int| 0 <= i2 < r@.len() implies self@.contains_key(
                #[trigger] r@[i2]@,
            ) by {
                lemma_entries_map_domain(self.entries@, r@[i2]@);
            }
            assert forall|k: Seq<char>| self@.contains_key(k) implies exists|i2: int|
                0 <= i2 < r@.len() && r@[i2]@ == k by {
                lemma_entries_map_domain(self.entries@, k);
                let j = choose|j: int| 0 <= j < self.entries@.len() && self.entries@[j].0@ == k;
                assert(r@[j]@ == k);
            }
        }
        r
    }
}

/// Whether a container's inspected image matches the application
/// signature; `None` — inspection failed or no image — never matches.
pub fn image_matches(image: &Option<String>) -> (r: bool)
    ensures
        r == signature_matches(*image),
{
    match image {
        Some(img) => str_eq(img.as_str(), "postgres"),
        None => false,
    }
}

/// Builds the instance registry from a container listing: resolves each
/// container's display name, applies the signature matcher and the
/// database-role filter, and maps qualified names to identities, later
/// containers overwriting earlier name collisions.
pub fn build_registry(containers: &Vec<ContainerDescriptor>) -> (r: Registry)
    ensures
        r@ == spec_registry(containers@),
{
    let mut r = Registry::new();
    let mut i: usize = 0;
    while i < containers.len()
        invariant
            i <= containers@.len(),
            r@ == spec_registry(containers@.subrange(0, i as int)),
        decreases containers@.len() - i,
    {
        let c = &containers[i];
        proof {
            assert(containers@.subrange(0, i + 1).drop_last() =~= containers@.subrange(
                0,
                i as int,
            ));
            assert(containers@.subrange(0, i + 1).last() == containers@[i as int]);
        }
        if let Some(id) = &c.id {
            let name: String = if c.names.len() > 0 {
                strip_name(c.names[0].as_str())
            } else {
                id.clone()
            };
            if image_matches(&c.image) && has_db_suffix(name.as_str()) {
                r.insert(name, id.clone());
            }
        }
        i += 1;
    }
    proof {
        assert(containers@.subrange(0, containers@.len() as int) =~= containers@);
    }
    r
}

/// Membership in the registry is the pure intersection of the two
/// predicates: a key is present exactly when some listed container with an
/// identity has a matching image and a display name that equals the key
/// and carries the database-role suffix.
pub proof fn lemma_registry_membership(s: Seq<ContainerDescriptor>, k: Seq<char>)
    ensures
        spec_registry(s).contains_key(k) <==> exists|i: int|
            0 <= i < s.len() && #[trigger] registry_eligible(s[i]) && display_name(s[i]) == k,
    decreases s.len(),
{
    if s.len() > 0 {
        lemma_registry_membership(s.drop_last(), k);
        let c = s.last();
        if spec_registry(s).contains_key(k) {
            if registry_eligible(c) && display_name(c) == k {
                assert(s[s.len() - 1] == c);
            } else {
                let i = choose|i: int|
                    0 <= i < s.drop_last().len() && #[trigger] registry_eligible(
                        s.drop_last()[i],
                    ) && display_name(s.drop_last()[i]) == k;
                assert(s[i] == s.drop_last()[i]);
            }
        }
        if exists|i: int|
            0 <= i < s.len() && #[trigger] registry_eligible(s[i]) && display_name(s[i]) == k {
            let i = choose|i: int|
                0 <= i < s.len() && #[trigger] registry_eligible(s[i]) && display_name(s[i]) == k;
            if i < s.len() - 1 {
                assert(s.drop_last()[i] == s[i]);
            }
        }
    }
}

} // verus!
