//! Webicon families, vendor attribution records and the configuration that
//! maps each family to its vendors.

use vstd::prelude::*;

use crate::error::WebiconError;

verus! {

/// An allowed family of webicons.
#[derive(Clone, Copy, Debug, PartialEq, Eq, Structural)]
pub enum WebiconFamily {
    Emojis,
    Icons,
}

/// The wire name of a family.
pub open spec fn family_name(f: WebiconFamily) -> Seq<char> {
    match f {
        WebiconFamily::Emojis => "emojis"@,
        WebiconFamily::Icons => "icons"@,
    }
}

/// The two families have different wire names.
pub proof fn lemma_family_names_distinct()
    ensures
        family_name(WebiconFamily::Emojis) != family_name(WebiconFamily::Icons),
{
    reveal_strlit("emojis");
    reveal_strlit("icons");
    assert(family_name(WebiconFamily::Emojis).len() != family_name(WebiconFamily::Icons).len());
}

/// The error for a string that names no family.
#[derive(Clone, Copy, Debug, PartialEq, Eq, Structural)]
pub struct ParseWebiconFamilyError;

impl WebiconFamily {
    /// The wire name of this family.
    pub fn to_string(&self) -> (r: String)
        ensures
            r@ == family_name(*self),
    {
        match self {
            WebiconFamily::Emojis => String::from_str("emojis"),
            WebiconFamily::Icons => String::from_str("icons"),
        }
    }

    /// Reads a family from its wire name; any other string is refused.
    pub fn from_name(s: &str) -> (r: Result<WebiconFamily, ParseWebiconFamilyError>)
        ensures
            r matches Ok(f) ==> family_name(f) == s@,
            r is Err <==> (s@ != family_name(WebiconFamily::Emojis) && s@ != family_name(
                WebiconFamily::Icons,
            )),
    {
        let owned = s.to_owned();
        if owned == String::from_str("emojis") {
            Ok(WebiconFamily::Emojis)
        } else if owned == String::from_str("icons") {
            Ok(WebiconFamily::Icons)
        } else {
            Err(ParseWebiconFamilyError)
        }
    }
}

impl std::str::FromStr for WebiconFamily {
    type Err = ParseWebiconFamilyError;

    fn from_str(s: &str) -> Result<Self, Self::Err> {
        WebiconFamily::from_name(s)
    }
}

/// Attribution data of one webicon vendor.
#[derive(Debug)]
pub struct WebiconVendorMetadata {
    pub name: String,
    pub attribution: String,
    pub license_name: String,
    pub license_url: String,
    pub url: String,
}

/// The text content of a vendor record.
pub struct VendorMetadataView {
    pub name: Seq<char>,
    pub attribution: Seq<char>,
    pub license_name: Seq<char>,
    pub license_url: Seq<char>,
    pub url: Seq<char>,
}

impl View for WebiconVendorMetadata {
    type V = VendorMetadataView;

    open spec fn view(&self) -> VendorMetadataView {
        VendorMetadataView {
            name: self.name@,
            attribution: self.attribution@,
            license_name: self.license_name@,
            license_url: self.license_url@,
            url: self.url@,
        }
    }
}

impl WebiconVendorMetadata {
    /// A record with the given fields.
    pub fn new(
        name: String,
        attribution: String,
        license_name: String,
        license_url: String,
        url: String,
    ) -> (r: Self)
        ensures
            r.name@ == name@,
            r.attribution@ == attribution@,
            r.license_name@ == license_name@,
            r.license_url@ == license_url@,
            r.url@ == url@,
    {
        WebiconVendorMetadata { name, attribution, license_name, license_url, url }
    }

    /// An owned copy of this record.
    pub fn copy(&self) -> (r: Self)
        ensures
            r@ == self@,
    {
        WebiconVendorMetadata {
            name: self.name.clone(),
            attribution: self.attribution.clone(),
            license_name: self.license_name.clone(),
            license_url: self.license_url.clone(),
            url: self.url.clone(),
        }
    }
}

/// Whether some entry of an ordered table has key `k`.
pub open spec fn has_key<V>(s: Seq<(Seq<char>, V)>, k: Seq<char>) -> bool {
    exists|i: int| 0 <= i < s.len() && #[trigger] s[i].0 == k
}

/// No two entries of an ordered table share a key.
pub open spec fn keys_unique<V>(s: Seq<(Seq<char>, V)>) -> bool {
    forall|i: int, j: int| 0 <= i < s.len() && 0 <= j < s.len() && i != j ==> #[trigger] s[i].0 != #[trigger] s[j].0
}

/// The value stored under `k`, if any.
pub open spec fn lookup<V>(s: Seq<(Seq<char>, V)>, k: Seq<char>) -> Option<V> {
    if has_key(s, k) {
        Some(s[choose|i: int| 0 <= i < s.len() && #[trigger] s[i].0 == k].1)
    } else {
        None
    }
}

/// The table after `insert(k, v)`: an existing key keeps its position and
/// takes the new value, a new key goes last.
pub open spec fn inserted<V>(s: Seq<(Seq<char>, V)>, k: Seq<char>, v: V) -> Seq<(Seq<char>, V)> {
    if has_key(s, k) {
        s.update(choose|i: int| 0 <= i < s.len() && #[trigger] s[i].0 == k, (k, v))
    } else {
        s.push((k, v))
    }
}

/// In a table with unique keys, the entry found at `i` is the one `lookup` picks.
pub proof fn lemma_lookup_at<V>(s: Seq<(Seq<char>, V)>, i: int)
    requires
        keys_unique(s),
        0 <= i < s.len(),
    ensures
        has_key(s, s[i].0),
        lookup(s, s[i].0) == Some(s[i].1),
        inserted(s, s[i].0, s[i].1) == s.update(i, (s[i].0, s[i].1)),
{
    let k = s[i].0;
    assert(s[i].0 == k);
    let j = choose|j: int| 0 <= j < s.len() && #[trigger] s[j].0 == k;
    assert(j == i);
}

/// Inserting into a table with unique keys keeps them unique, and the key
/// then holds the inserted value.
pub proof fn lemma_lookup_inserted<V>(s: Seq<(Seq<char>, V)>, k: Seq<char>, v: V)
    requires
        keys_unique(s),
    ensures
        keys_unique(inserted(s, k, v)),
        lookup(inserted(s, k, v), k) == Some(v),
{
    let t = inserted(s, k, v);
    if has_key(s, k) {
        let i = choose|i: int| 0 <= i < s.len() && #[trigger] s[i].0 == k;
        assert(t == s.update(i, (k, v)));
        assert forall|a: int, b: int| 0 <= a < t.len() && 0 <= b < t.len() && a != b implies #[trigger] t[a].0 != #[trigger] t[b].0 by {
            if a != i && b != i {
                assert(s[a].0 != s[b].0);
            } else if a == i {
                assert(s[b].0 != s[i].0);
            } else {
                assert(s[a].0 != s[i].0);
            }
        }
        lemma_lookup_at(t, i);
    } else {
        let n = s.len() as int;
        assert(t == s.push((k, v)));
        assert forall|a: int, b: int| 0 <= a < t.len() && 0 <= b < t.len() && a != b implies #[trigger] t[a].0 != #[trigger] t[b].0 by {
            if a != n && b != n {
                assert(s[a].0 != s[b].0);
            } else if a == n {
                assert(s[b].0 != k);
            } else {
                assert(s[a].0 != k);
            }
        }
        lemma_lookup_at(t, n);
    }
}

/// The vendors of one family, in the order in which they were defined.
pub struct VendorTable {
    entries: Vec<(String, WebiconVendorMetadata)>,
}

impl View for VendorTable {
    type V = Seq<(Seq<char>, VendorMetadataView)>;

    closed spec fn view(&self) -> Self::V {
        self.entries@.map_values(|e: (String, WebiconVendorMetadata)| (e.0@, e.1@))
    }
}

impl VendorTable {
    /// Vendor names are unique.
    pub open spec fn wf(&self) -> bool {
        keys_unique(self@)
    }

    /// A table with no vendors.
    pub fn new() -> (r: Self)
        ensures
            r.wf(),
            r@ == Seq::<(Seq<char>, VendorMetadataView)>::empty(),
    {
        let r = VendorTable { entries: Vec::new() };
        assert(r@ =~= Seq::<(Seq<char>, VendorMetadataView)>::empty());
        r
    }

    /// The number of vendors.
    pub fn len(&self) -> (r: usize)
        ensures
            r == self@.len(),
    {
        self.entries.len()
    }

    /// The position of `vendor` in the table, if it is there.
    fn position(&self, vendor: &String) -> (r: Option<usize>)
        requires
            self.wf(),
        ensures
            r is None <==> !has_key(self@, vendor@),
            r matches Some(i) ==> i < self@.len() && self@[i as int].0 == vendor@,
    {
        let mut i: usize = 0;
        while i < self.entries.len()
            invariant
                i <= self.entries@.len(),
                forall|j: int| 0 <= j < i ==> #[trigger] self@[j].0 != vendor@,
            decreases self.entries@.len() - i,
        {
            if self.entries[i].0 == *vendor {
                assert(self@[i as int].0 == vendor@);
                return Some(i);
            }
            i = i + 1;
        }
        None
    }

    /// Adds or replaces the record of `vendor`. A new vendor goes last; an
    /// existing one keeps its place.
    pub fn insert(&mut self, vendor: String, metadata: WebiconVendorMetadata)
        requires
            old(self).wf(),
        ensures
            final(self).wf(),
            final(self)@ == inserted(old(self)@, vendor@, metadata@),
    {
        let ghost k = vendor@;
        let ghost v = metadata@;
        match self.position(&vendor) {
            Some(i) => {
                proof {
                    lemma_lookup_at(self@, i as int);
                }
                self.entries.set(i, (vendor, metadata));
                assert(self@ =~= old(self)@.update(i as int, (k, v)));
            },
            None => {
                self.entries.push((vendor, metadata));
                assert(self@ =~= old(self)@.push((k, v)));
            },
        }
    }

    /// The name of the last vendor defined, if any.
    pub fn last_vendor(&self) -> (r: Option<String>)
        ensures
            r is None <==> self@.len() == 0,
            r matches Some(k) ==> k@ == self@.last().0,
    {
        let n = self.entries.len();
        if n == 0 {
            None
        } else {
            Some(self.entries[n - 1].0.clone())
        }
    }

    /// A copy of the record of `vendor`, if the table has one.
    pub fn get(&self, vendor: &String) -> (r: Option<WebiconVendorMetadata>)
        requires
            self.wf(),
        ensures
            r is None <==> lookup(self@, vendor@) is None,
            r matches Some(m) ==> lookup(self@, vendor@) == Some(m@),
    {
        match self.position(vendor) {
            Some(i) => {
                proof {
                    lemma_lookup_at(self@, i as int);
                }
                Some(self.entries[i].1.copy())
            },
            None => None,
        }
    }
}

/// The vendor tables of every family, in the order the families were defined.
pub struct MetadataConfig {
    families: Vec<(String, VendorTable)>,
}

/// The content of a configuration: family name to its ordered vendor table.
pub type ConfigView = Seq<(Seq<char>, Seq<(Seq<char>, VendorMetadataView)>)>;

impl View for MetadataConfig {
    type V = ConfigView;

    closed spec fn view(&self) -> ConfigView {
        self.families@.map_values(|e: (String, VendorTable)| (e.0@, e.1@))
    }
}

/// Every vendor table of a configuration has unique vendor names.
pub open spec fn tables_wf(c: ConfigView) -> bool {
    forall|i: int| 0 <= i < c.len() ==> keys_unique(#[trigger] c[i].1)
}

/// The string content of a result.
pub open spec fn string_result<E>(r: Result<String, E>) -> Result<Seq<char>, E> {
    match r {
        Ok(s) => Ok(s@),
        Err(e) => Err(e),
    }
}

/// The default vendor of a family: the last one in its table.
pub open spec fn default_vendor_of(c: ConfigView, family: Seq<char>) -> Result<Seq<char>, WebiconError> {
    match lookup(c, family) {
        None => Err(WebiconError::UnknownFamily),
        Some(t) => if t.len() == 0 {
            Err(WebiconError::EmptyVendorTable)
        } else {
            Ok(t.last().0)
        },
    }
}

/// The record of `vendor` in the table of `family`.
pub open spec fn metadata_of(c: ConfigView, family: Seq<char>, vendor: Seq<char>) -> Result<VendorMetadataView, WebiconError> {
    match lookup(c, family) {
        None => Err(WebiconError::UnknownFamily),
        Some(t) => match lookup(t, vendor) {
            None => Err(WebiconError::UnknownVendor),
            Some(m) => Ok(m),
        },
    }
}

impl MetadataConfig {
    /// Family names are unique and each vendor table is well formed.
    pub open spec fn wf(&self) -> bool {
        keys_unique(self@) && tables_wf(self@)
    }

    /// A configuration with no families.
    pub fn new() -> (r: Self)
        ensures
            r.wf(),
            r@ == ConfigView::empty(),
    {
        let r = MetadataConfig { families: Vec::new() };
        assert(r@ =~= ConfigView::empty());
        r
    }

    /// The position of `family`, if the configuration has it.
    fn position(&self, family: &String) -> (r: Option<usize>)
        requires
            self.wf(),
        ensures
            r is None <==> !has_key(self@, family@),
            r matches Some(i) ==> i < self@.len() && self@[i as int].0 == family@,
    {
        let mut i: usize = 0;
        while i < self.families.len()
            invariant
                i <= self.families@.len(),
                forall|j: int| 0 <= j < i ==> #[trigger] self@[j].0 != family@,
            decreases self.families@.len() - i,
        {
            if self.families[i].0 == *family {
                assert(self@[i as int].0 == family@);
                return Some(i);
            }
            i = i + 1;
        }
        None
    }

    /// Sets the vendor table of `family`. A new family goes last; an existing
    /// one keeps its place and takes the new table.
    pub fn insert(&mut self, family: String, table: VendorTable)
        requires
            old(self).wf(),
            table.wf(),
        ensures
            final(self).wf(),
            final(self)@ == inserted(old(self)@, family@, table@),
    {
        let ghost k = family@;
        let ghost t = table@;
        match self.position(&family) {
            Some(i) => {
                proof {
                    lemma_lookup_at(self@, i as int);
                }
                self.families.set(i, (family, table));
                assert(self@ =~= old(self)@.update(i as int, (k, t)));
            },
            None => {
                self.families.push((family, table));
                assert(self@ =~= old(self)@.push((k, t)));
            },
        }
    }

    /// The vendor table of `family`, if the configuration has one.
    fn table(&self, family: &String) -> (r: Option<&VendorTable>)
        requires
            self.wf(),
        ensures
            r is None <==> lookup(self@, family@) is None,
            r matches Some(t) ==> t.wf() && lookup(self@, family@) == Some(t@),
    {
        match self.position(family) {
            Some(i) => {
                proof {
                    lemma_lookup_at(self@, i as int);
                    assert(tables_wf(self@));
                    assert(keys_unique(self@[i as int].1));
                }
                Some(&self.families[i].1)
            },
            None => None,
        }
    }
}

/// After a new vendor is added to a family's table, that vendor is the
/// family's default, whatever its name: the default follows the order of
/// definition, not the order of names.
pub proof fn lemma_default_vendor_is_last_inserted(
    c: ConfigView,
    family: Seq<char>,
    t: Seq<(Seq<char>, VendorMetadataView)>,
    vendor: Seq<char>,
    m: VendorMetadataView,
)
    requires
        keys_unique(c),
        !has_key(t, vendor),
    ensures
        default_vendor_of(inserted(c, family, inserted(t, vendor, m)), family) == Ok::<Seq<char>, WebiconError>(vendor),
{
    let t2 = inserted(t, vendor, m);
    assert(t2 == t.push((vendor, m)));
    lemma_lookup_inserted(c, family, t2);
}

/// After a vendor's record is set in a family's table, asking for that
/// vendor of that family gives the record.
pub proof fn lemma_metadata_after_insert(
    c: ConfigView,
    family: Seq<char>,
    t: Seq<(Seq<char>, VendorMetadataView)>,
    vendor: Seq<char>,
    m: VendorMetadataView,
)
    requires
        keys_unique(c),
        keys_unique(t),
    ensures
        metadata_of(inserted(c, family, inserted(t, vendor, m)), family, vendor) == Ok::<VendorMetadataView, WebiconError>(m),
{
    let t2 = inserted(t, vendor, m);
    lemma_lookup_inserted(t, vendor, m);
    lemma_lookup_inserted(c, family, t2);
}

/// A family that the configuration lacks is refused by both queries; a vendor
/// that the family's table lacks is refused by the metadata query.
pub proof fn lemma_unknown_family_or_vendor(c: ConfigView, family: Seq<char>, vendor: Seq<char>)
    ensures
        !has_key(c, family) ==> default_vendor_of(c, family) == Err::<Seq<char>, WebiconError>(WebiconError::UnknownFamily),
        !has_key(c, family) ==> metadata_of(c, family, vendor) == Err::<VendorMetadataView, WebiconError>(WebiconError::UnknownFamily),
        (lookup(c, family) matches Some(t) && !has_key(t, vendor)) ==> metadata_of(c, family, vendor) == Err::<VendorMetadataView, WebiconError>(WebiconError::UnknownVendor),
{
}

/// The default vendor of `family`: the vendor defined last in its table.
pub fn get_default_vendor(config: &MetadataConfig, family: &str) -> (r: Result<String, WebiconError>)
    requires
        config.wf(),
    ensures
        string_result(r) == default_vendor_of(config@, family@),
{
    let family = family.to_owned();
    match config.table(&family) {
        None => Err(WebiconError::UnknownFamily),
        Some(t) => match t.last_vendor() {
            None => Err(WebiconError::EmptyVendorTable),
            Some(k) => Ok(k),
        },
    }
}

/// A copy of the record of `vendor` in the table of `family`.
pub fn get_metadata(config: &MetadataConfig, family: &WebiconFamily, vendor: &str) -> (r: Result<WebiconVendorMetadata, WebiconError>)
    requires
        config.wf(),
    ensures
        match r {
            Ok(m) => metadata_of(config@, family_name(*family), vendor@) == Ok::<VendorMetadataView, WebiconError>(m@),
            Err(e) => metadata_of(config@, family_name(*family), vendor@) == Err::<VendorMetadataView, WebiconError>(e),
        },
{
    let family = family.to_string();
    let vendor = vendor.to_owned();
    match config.table(&family) {
        None => Err(WebiconError::UnknownFamily),
        Some(t) => match t.get(&vendor) {
            None => Err(WebiconError::UnknownVendor),
            Some(m) => Ok(m),
        },
    }
}

} // verus!
