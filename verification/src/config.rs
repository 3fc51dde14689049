//! The hub's list of registered dongles, and the rules that make it valid.

use vstd::prelude::*;
use crate::ble::{normalize_ble_address, normalized_address};
use crate::device_id::{
    device_id_from_text, format_device_id, hex_text, is_device_id_text, lemma_device_id_roundtrip,
    lemma_device_id_text, lemma_hex_text_canonical, lemma_parse_then_format, parse_device_id,
    DeviceIdError,
};
use crate::text::{ascii_lowered, str_eq, to_ascii_lowercase, trim_str, trimmed};

verus! {

/// A dongle as the configuration lists it.
#[derive(Debug, PartialEq, Eq)]
pub struct RegisteredDongle {
    pub device_id: String,
    pub endpoint_id: u16,
    pub enabled: bool,
    pub preferred_ble_address: Option<String>,
}

/// Device id text, endpoint, enabled flag and preferred address text.
pub type DongleView = (Seq<char>, u16, bool, Option<Seq<char>>);

/// The text of an optional string.
pub open spec fn optional_text(a: Option<String>) -> Option<Seq<char>> {
    match a {
        Some(s) => Some(s@),
        None => None,
    }
}

impl View for RegisteredDongle {
    type V = DongleView;

    open spec fn view(&self) -> DongleView {
        (self.device_id@, self.endpoint_id, self.enabled, optional_text(self.preferred_ble_address))
    }
}

/// Whether a dongle entry is enabled when the configuration does not say.
pub fn default_enabled() -> (b: bool)
    ensures
        b,
{
    true
}

/// Why a configuration was refused.
#[derive(Debug, PartialEq, Eq)]
pub enum ConfigError {
    /// A device id is not sixteen hexadecimal digits.
    DeviceId(DeviceIdError),
    /// Two entries name the same device.
    DuplicateDeviceId(String),
    /// Two entries use the same Matter endpoint.
    DuplicateEndpointId(u16),
    /// An entry uses endpoint 0 or 1, which the bridge itself occupies.
    ReservedEndpointId(u16),
}

/// The kind of the first fault found in a configuration.
#[derive(Debug, Clone, Copy, PartialEq, Eq, Structural)]
pub enum ConfigFault {
    DeviceId(DeviceIdError),
    DuplicateDeviceId,
    DuplicateEndpointId,
    ReservedEndpointId,
}

/// The device id an entry names: its text trimmed and lower-cased, then read
/// as sixteen hexadecimal digits.
pub open spec fn entry_device_id(d: DongleView) -> Result<Seq<u8>, DeviceIdError> {
    device_id_from_text(ascii_lowered(trimmed(d.0)))
}

/// The preferred address an entry keeps once normalised.
pub open spec fn normalized_preferred(a: Option<Seq<char>>) -> Option<Seq<char>> {
    match a {
        Some(x) => normalized_address(x),
        None => None,
    }
}

/// An entry with its device id rewritten in canonical form and its preferred
/// address normalised.
pub open spec fn normalized_entry(d: DongleView, id: Seq<u8>) -> DongleView {
    (hex_text(id), d.1, d.2, normalized_preferred(d.3))
}

/// Normalising the entries in order: the normalised list, or the position and
/// kind of the first fault. An entry is at fault when its device id does not
/// read, when an earlier entry names the same device or the same endpoint, or
/// when its endpoint is 0 or 1.
pub open spec fn normalize_entries(s: Seq<DongleView>) -> Result<Seq<DongleView>, (int, ConfigFault)>
    decreases s.len(),
{
    if s.len() == 0 {
        Ok(Seq::empty())
    } else {
        match normalize_entries(s.drop_last()) {
            Err(f) => Err(f),
            Ok(prefix) => {
                let k = s.len() - 1;
                match entry_device_id(s.last()) {
                    Err(e) => Err((k, ConfigFault::DeviceId(e))),
                    Ok(id) => {
                        let n = normalized_entry(s.last(), id);
                        if exists|j: int| 0 <= j < prefix.len() && (#[trigger] prefix[j]).0 == n.0 {
                            Err((k, ConfigFault::DuplicateDeviceId))
                        } else if exists|j: int|
                            0 <= j < prefix.len() && (#[trigger] prefix[j]).1 == n.1 {
                            Err((k, ConfigFault::DuplicateEndpointId))
                        } else if n.1 <= 1 {
                            Err((k, ConfigFault::ReservedEndpointId))
                        } else {
                            Ok(prefix.push(n))
                        }
                    },
                }
            },
        }
    }
}

/// The error reported for a fault of kind `f` at entry `d`.
pub open spec fn reports(e: ConfigError, d: DongleView, f: ConfigFault) -> bool {
    match f {
        ConfigFault::DeviceId(x) => e == ConfigError::DeviceId(x),
        ConfigFault::DuplicateDeviceId => e matches ConfigError::DuplicateDeviceId(s) && s@
            == hex_text(entry_device_id(d)->Ok_0),
        ConfigFault::DuplicateEndpointId => e == ConfigError::DuplicateEndpointId(d.1),
        ConfigFault::ReservedEndpointId => e == ConfigError::ReservedEndpointId(d.1),
    }
}

/// Entries ordered by endpoint.
pub open spec fn sorted_by_endpoint(s: Seq<DongleView>) -> bool {
    forall|i: int, j: int| 0 <= i < j < s.len() ==> (#[trigger] s[i]).1 <= (#[trigger] s[j]).1
}

/// The views of a list of entries.
pub open spec fn dongle_views(s: Seq<RegisteredDongle>) -> Seq<DongleView> {
    s.map_values(|d: RegisteredDongle| d@)
}

/// `slice::sort_by_key` on the endpoint: the entries are permuted into
/// endpoint order. The standard sort is also stable; that is not stated here.
#[verifier::external_body]
fn sort_by_endpoint(dongles: &mut Vec<RegisteredDongle>)
    ensures
        dongle_views(final(dongles)@).to_multiset() == dongle_views(old(dongles)@).to_multiset(),
        sorted_by_endpoint(dongle_views(final(dongles)@)),
        final(dongles)@.len() == old(dongles)@.len(),
{
    dongles.sort_by_key(|d| d.endpoint_id)
}

/// The dongles that are enabled, in order.
pub open spec fn enabled_only(s: Seq<RegisteredDongle>) -> Seq<RegisteredDongle>
    decreases s.len(),
{
    if s.len() == 0 {
        Seq::empty()
    } else if s.last().enabled {
        enabled_only(s.drop_last()).push(s.last())
    } else {
        enabled_only(s.drop_last())
    }
}

/// The enabled dongles are the configuration filtered by its enabled flag:
/// every dongle listed is enabled, and every enabled dongle is listed, in
/// configuration order.
pub proof fn lemma_enabled_only_filters(s: Seq<RegisteredDongle>)
    ensures
        enabled_only(s) == s.filter(|d: RegisteredDongle| d.enabled),
        forall|i: int| 0 <= i < enabled_only(s).len() ==> (#[trigger] enabled_only(s)[i]).enabled,
    decreases s.len(),
{
    reveal(Seq::filter);
    if s.len() > 0 {
        lemma_enabled_only_filters(s.drop_last());
    }
    broadcast use vstd::seq_lib::group_filter_ensures;
    let f = s.filter(|d: RegisteredDongle| d.enabled);
    assert forall|i: int| 0 <= i < f.len() implies (#[trigger] f[i]).enabled by {
        s.lemma_filter_pred(|d: RegisteredDongle| d.enabled, i);
    }
}

/// The hub's configuration.
#[derive(Debug)]
pub struct HubConfig {
    pub dongles: Vec<RegisteredDongle>,
}

impl Default for HubConfig {
    fn default() -> (c: HubConfig)
        ensures
            c.dongles@ == Seq::<RegisteredDongle>::empty(),
    {
        HubConfig { dongles: Vec::new() }
    }
}

impl HubConfig {
    /// The enabled dongles, in order.
    pub fn enabled_dongles(&self) -> (r: Vec<&RegisteredDongle>)
        ensures
            r@.map_values(|d: &RegisteredDongle| *d) == enabled_only(self.dongles@),
    {
        let mut r: Vec<&RegisteredDongle> = Vec::new();
        let mut i: usize = 0;
        while i < self.dongles.len()
            invariant
                i <= self.dongles@.len(),
                r@.map_values(|d: &RegisteredDongle| *d) == enabled_only(self.dongles@.take(i as int)),
            decreases self.dongles@.len() - i,
        {
            let d = &self.dongles[i];
            assert(self.dongles@.take(i + 1).drop_last() =~= self.dongles@.take(i as int));
            if d.enabled {
                r.push(d);
            }
            i = i + 1;
            assert(r@.map_values(|d: &RegisteredDongle| *d) =~= enabled_only(
                self.dongles@.take(i as int),
            ));
        }
        assert(self.dongles@.take(self.dongles@.len() as int) =~= self.dongles@);
        r
    }
}


/// Once a prefix of the entries is at fault, so is the whole list, at the same place.
proof fn lemma_fault_persists(s: Seq<DongleView>, m: int)
    requires
        0 <= m <= s.len(),
        normalize_entries(s.take(m)) is Err,
    ensures
        normalize_entries(s) == normalize_entries(s.take(m)),
    decreases s.len(),
{
    if m == s.len() {
        assert(s.take(m) =~= s);
    } else {
        assert(s.drop_last().take(m) =~= s.take(m));
        lemma_fault_persists(s.drop_last(), m);
    }
}

/// A fault is reported at an entry of the list.
proof fn lemma_fault_in_range(s: Seq<DongleView>)
    ensures
        normalize_entries(s) matches Err((k, _)) ==> 0 <= k < s.len(),
        normalize_entries(s) matches Ok(n) ==> n.len() == s.len(),
    decreases s.len(),
{
    if s.len() > 0 {
        lemma_fault_in_range(s.drop_last());
    }
}

impl HubConfig {
    /// Puts every entry in canonical form (device id as lowercase hexadecimal,
    /// preferred address normalised), refuses duplicate device ids, duplicate
    /// endpoints and the reserved endpoints 0 and 1, and orders the entries by
    /// endpoint.
    pub fn normalize(&mut self) -> (r: Result<(), ConfigError>)
        ensures
            match normalize_entries(dongle_views(old(self).dongles@)) {
                Ok(n) => {
                    &&& r is Ok
                    &&& sorted_by_endpoint(dongle_views(final(self).dongles@))
                    &&& dongle_views(final(self).dongles@).to_multiset() == n.to_multiset()
                },
                Err((k, f)) => {
                    &&& 0 <= k < old(self).dongles@.len()
                    &&& r matches Err(e) && reports(e, dongle_views(old(self).dongles@)[k], f)
                    &&& normalize_entries(dongle_views(old(self).dongles@).take(k)) == Ok::<
                        Seq<DongleView>,
                        (int, ConfigFault),
                    >(dongle_views(final(self).dongles@).take(k))
                    &&& f is DeviceId ==> dongle_views(final(self).dongles@)[k] == dongle_views(
                        old(self).dongles@,
                    )[k]
                    &&& !(f is DeviceId) ==> dongle_views(final(self).dongles@)[k]
                        == normalized_entry(
                        dongle_views(old(self).dongles@)[k],
                        entry_device_id(dongle_views(old(self).dongles@)[k])->Ok_0,
                    )
                    &&& forall|j: int|
                        k < j < old(self).dongles@.len() ==> #[trigger] dongle_views(
                            final(self).dongles@,
                        )[j] == dongle_views(old(self).dongles@)[j]
                },
            },
            final(self).dongles@.len() == old(self).dongles@.len(),
            r is Ok <==> acceptable_entries(dongle_views(old(self).dongles@)),
    {
        let ghost old_views = dongle_views(self.dongles@);
        proof {
            lemma_normalize_succeeds_iff(old_views);
            lemma_fault_in_range(old_views);
            assert(old_views.take(0) =~= Seq::<DongleView>::empty());
        }
        let n = self.dongles.len();
        let mut i: usize = 0;
        while i < n
            invariant
                n == self.dongles@.len(),
                old_views.len() == n,
                old_views == dongle_views(old(self).dongles@),
                i <= n,
                normalize_entries(old_views) matches Err((k, _)) ==> 0 <= k < n,
                normalize_entries(old_views) is Ok <==> acceptable_entries(old_views),
                normalize_entries(old_views.take(i as int)) == Ok::<
                    Seq<DongleView>,
                    (int, ConfigFault),
                >(dongle_views(self.dongles@).take(i as int)),
                forall|j: int| i <= j < n ==> #[trigger] dongle_views(self.dongles@)[j] == old_views[j],
            decreases n - i,
        {
            let ghost before = dongle_views(self.dongles@);
            let ghost d = old_views[i as int];
            assert(before[i as int] == d);
            let ghost s_next = old_views.take(i + 1);
            assert(s_next.drop_last() =~= old_views.take(i as int));
            assert(s_next.last() == d);

            let lowered = to_ascii_lowercase(trim_str(self.dongles[i].device_id.as_str()));
            let parsed = match parse_device_id(lowered.as_str()) {
                Ok(p) => p,
                Err(e) => {
                    proof {
                        lemma_fault_persists(old_views, i + 1);
                    }
                    return Err(ConfigError::DeviceId(e));
                },
            };
            let device_id = format_device_id(&parsed);
            let preferred = match &self.dongles[i].preferred_ble_address {
                Some(a) => normalize_ble_address(a.as_str()),
                None => None,
            };
            let endpoint_id = self.dongles[i].endpoint_id;
            let enabled = self.dongles[i].enabled;
            let ghost entry_view = normalized_entry(d, parsed@);
            assert(optional_text(preferred) == normalized_preferred(d.3));
            let reported_id = device_id.clone();
            self.dongles.set(
                i,
                RegisteredDongle { device_id, endpoint_id, enabled, preferred_ble_address: preferred },
            );
            let ghost after = dongle_views(self.dongles@);
            assert(after =~= before.update(i as int, entry_view));
            assert(after.take(i as int) =~= before.take(i as int));

            let mut j: usize = 0;
            #[verifier::loop_isolation(false)]
            while j < i
                invariant
                    j <= i < n,
                    n == self.dongles@.len(),
                    after == dongle_views(self.dongles@),
                    after[i as int] == entry_view,
                    reported_id@ == entry_view.0,
                    forall|m: int| 0 <= m < j ==> (#[trigger] after[m]).0 != entry_view.0,
                decreases i - j,
            {
                if str_eq(self.dongles[j].device_id.as_str(), self.dongles[i].device_id.as_str()) {
                    proof {
                        assert(after.take(i as int)[j as int].0 == entry_view.0);
                        lemma_fault_persists(old_views, i + 1);
                    }
                    return Err(ConfigError::DuplicateDeviceId(reported_id));
                }
                j = j + 1;
            }
            assert(!exists|m: int| 0 <= m < i && (#[trigger] after.take(i as int)[m]).0 == entry_view.0);
            let mut j: usize = 0;
            #[verifier::loop_isolation(false)]
            while j < i
                invariant
                    j <= i < n,
                    n == self.dongles@.len(),
                    after == dongle_views(self.dongles@),
                    after[i as int] == entry_view,
                    forall|m: int| 0 <= m < j ==> (#[trigger] after[m]).1 != entry_view.1,
                decreases i - j,
            {
                if self.dongles[j].endpoint_id == self.dongles[i].endpoint_id {
                    proof {
                        assert(after.take(i as int)[j as int].1 == entry_view.1);
                        lemma_fault_persists(old_views, i + 1);
                    }
                    return Err(ConfigError::DuplicateEndpointId(endpoint_id));
                }
                j = j + 1;
            }
            assert(!exists|m: int| 0 <= m < i && (#[trigger] after.take(i as int)[m]).1 == entry_view.1);
            if endpoint_id <= 1 {
                proof {
                    lemma_fault_persists(old_views, i + 1);
                }
                return Err(ConfigError::ReservedEndpointId(endpoint_id));
            }
            i = i + 1;
            assert(after.take(i as int) =~= after.take(i - 1).push(entry_view));
        }
        assert(old_views.take(n as int) =~= old_views);
        assert(dongle_views(self.dongles@).take(n as int) =~= dongle_views(self.dongles@));
        sort_by_endpoint(&mut self.dongles);
        Ok(())
    }
}


/// An entry as `normalize` leaves it: the device id written as sixteen
/// lowercase hexadecimal characters, the preferred address already
/// normalised, and an endpoint clear of 0 and 1.
pub open spec fn canonical_entry(e: DongleView) -> bool {
    &&& exists|id: Seq<u8>| id.len() == 8 && e.0 == #[trigger] hex_text(id)
    &&& normalized_preferred(e.3) == e.3
    &&& e.1 >= 2
}

/// Canonical entries naming each device once and using each endpoint once.
pub open spec fn normal_config(s: Seq<DongleView>) -> bool {
    &&& forall|i: int| 0 <= i < s.len() ==> canonical_entry(#[trigger] s[i])
    &&& forall|i: int, j: int|
        0 <= i < j < s.len() ==> (#[trigger] s[i]).0 != (#[trigger] s[j]).0 && s[i].1 != s[j].1
}

/// A configuration that normalises cleanly names each device once, uses each
/// endpoint once, keeps clear of endpoints 0 and 1, writes every device id as
/// sixteen lowercase hexadecimal characters and keeps only normalised
/// preferred addresses.
pub proof fn lemma_normalized_config_valid(s: Seq<DongleView>)
    ensures
        normalize_entries(s) matches Ok(n) ==> normal_config(n),
    decreases s.len(),
{
    if s.len() > 0 {
        lemma_normalized_config_valid(s.drop_last());
        if let Ok(n) = normalize_entries(s) {
            let prefix = normalize_entries(s.drop_last())->Ok_0;
            let id = entry_device_id(s.last())->Ok_0;
            let e = normalized_entry(s.last(), id);
            assert(n == prefix.push(e));
            assert(id.len() == 8);
            assert(canonical_entry(e)) by {
                if let Some(a) = s.last().3 {
                    crate::ble::lemma_normalized_address_idempotent(a);
                }
            }
            assert forall|i: int| 0 <= i < n.len() implies canonical_entry(#[trigger] n[i]) by {
                if i < n.len() - 1 {
                    assert(n[i] == prefix[i]);
                }
            }
            assert forall|i: int, j: int| 0 <= i < j < n.len() implies (#[trigger] n[i]).0 != (
            #[trigger] n[j]).0 && n[i].1 != n[j].1 by {
                assert(n[i] == prefix[i]);
                if j < n.len() - 1 {
                    assert(n[j] == prefix[j]);
                }
            }
        }
    }
}

/// An entry's device id text as `normalize` reads it: trimmed and lower-cased.
pub open spec fn cleaned_id_text(d: DongleView) -> Seq<char> {
    ascii_lowered(trimmed(d.0))
}

/// An entry as `normalize` rewrites it: cleaned device id text and
/// normalised preferred address, endpoint and enabled flag kept.
pub open spec fn cleaned_entry(d: DongleView) -> DongleView {
    (cleaned_id_text(d), d.1, d.2, normalized_preferred(d.3))
}

/// The entries `normalize` accepts: every cleaned device id text is sixteen
/// lowercase hexadecimal digits and every endpoint is at least 2; no two
/// entries share a cleaned device id text or an endpoint.
pub open spec fn acceptable_entries(s: Seq<DongleView>) -> bool {
    &&& forall|i: int|
        0 <= i < s.len() ==> is_device_id_text(cleaned_id_text(#[trigger] s[i])) && s[i].1 >= 2
    &&& forall|i: int, j: int|
        0 <= i < j < s.len() ==> cleaned_id_text(#[trigger] s[i]) != cleaned_id_text(#[trigger] s[j])
            && s[i].1 != s[j].1
}

/// An entry's device id reads exactly when its cleaned text is sixteen
/// lowercase hexadecimal digits, and then it is written as that text.
proof fn lemma_entry_id(d: DongleView)
    ensures
        entry_device_id(d) is Ok <==> is_device_id_text(cleaned_id_text(d)),
        entry_device_id(d) matches Ok(id) ==> hex_text(id) == cleaned_id_text(d),
{
    let c = cleaned_id_text(d);
    crate::text::lemma_lowered_trimmed_is_trimmed(d.0);
    lemma_device_id_text(c);
    lemma_parse_then_format(c);
}

/// `normalize` succeeds exactly on acceptable entries, and then rewrites each
/// entry in place into its cleaned form (before ordering by endpoint).
pub proof fn lemma_normalize_succeeds_iff(s: Seq<DongleView>)
    ensures
        normalize_entries(s) is Ok <==> acceptable_entries(s),
        normalize_entries(s) matches Ok(n) ==> n.len() == s.len() && forall|i: int|
            0 <= i < s.len() ==> #[trigger] n[i] == cleaned_entry(s[i]),
    decreases s.len(),
{
    if s.len() > 0 {
        let p = s.drop_last();
        let d = s.last();
        let last = s.len() - 1;
        lemma_normalize_succeeds_iff(p);
        lemma_entry_id(d);
        assert(acceptable_entries(s) ==> acceptable_entries(p)) by {
            if acceptable_entries(s) {
                assert forall|i: int| 0 <= i < p.len() implies is_device_id_text(
                    cleaned_id_text(#[trigger] p[i]),
                ) && p[i].1 >= 2 by {
                    assert(p[i] == s[i]);
                }
                assert forall|i: int, j: int| 0 <= i < j < p.len() implies cleaned_id_text(
                    #[trigger] p[i],
                ) != cleaned_id_text(#[trigger] p[j]) && p[i].1 != p[j].1 by {
                    assert(p[i] == s[i] && p[j] == s[j]);
                }
            }
        }
        assert(acceptable_entries(s) ==> is_device_id_text(cleaned_id_text(d)) && d.1 >= 2) by {
            if acceptable_entries(s) {
                assert(is_device_id_text(cleaned_id_text(s[last])) && s[last].1 >= 2);
            }
        }
        if let Ok(np) = normalize_entries(p) {
            if let Ok(id) = entry_device_id(d) {
                let e = normalized_entry(d, id);
                assert(e == cleaned_entry(d));
                let dup_id = exists|j: int| 0 <= j < np.len() && (#[trigger] np[j]).0 == e.0;
                let dup_ep = exists|j: int| 0 <= j < np.len() && (#[trigger] np[j]).1 == e.1;
                if dup_id {
                    let j = choose|j: int| 0 <= j < np.len() && (#[trigger] np[j]).0 == e.0;
                    assert(np[j] == cleaned_entry(p[j]));
                    assert(p[j] == s[j]);
                    assert(!acceptable_entries(s) || cleaned_id_text(s[j]) != cleaned_id_text(s[last]));
                } else if dup_ep {
                    let j = choose|j: int| 0 <= j < np.len() && (#[trigger] np[j]).1 == e.1;
                    assert(np[j] == cleaned_entry(p[j]));
                    assert(p[j] == s[j]);
                    assert(!acceptable_entries(s) || s[j].1 != s[last].1);
                } else if e.1 > 1 {
                    let n = np.push(e);
                    assert(normalize_entries(s) == Ok::<Seq<DongleView>, (int, ConfigFault)>(n));
                    assert forall|i: int| 0 <= i < s.len() implies #[trigger] n[i] == cleaned_entry(s[i]) by {
                        if i < last {
                            assert(n[i] == np[i] && p[i] == s[i]);
                        }
                    }
                    assert forall|i: int| 0 <= i < s.len() implies is_device_id_text(
                        cleaned_id_text(#[trigger] s[i]),
                    ) && s[i].1 >= 2 by {
                        if i < last {
                            assert(p[i] == s[i]);
                        }
                    }
                    assert forall|i: int, j: int| 0 <= i < j < s.len() implies cleaned_id_text(
                        #[trigger] s[i],
                    ) != cleaned_id_text(#[trigger] s[j]) && s[i].1 != s[j].1 by {
                        assert(p[i] == s[i]);
                        if j < last {
                            assert(p[j] == s[j]);
                        } else {
                            assert(np[i] == cleaned_entry(p[i]));
                            assert(np[i].0 != e.0);
                            assert(np[i].1 != e.1);
                        }
                    }
                }
            }
        }
    }
}

/// Reordering a normal configuration keeps it normal.
proof fn lemma_normal_config_permuted(n: Seq<DongleView>, f: Seq<DongleView>)
    requires
        normal_config(n),
        f.to_multiset() == n.to_multiset(),
    ensures
        normal_config(f),
{
    broadcast use vstd::seq_lib::group_to_multiset_ensures;

    assert(n.no_duplicates()) by {
        assert forall|i: int, j: int| 0 <= i < n.len() && 0 <= j < n.len() && i != j implies n[i]
            != n[j] by {
            if i < j {
                assert(n[i].0 != n[j].0);
            } else {
                assert(n[j].0 != n[i].0);
            }
        }
    }
    n.lemma_multiset_has_no_duplicates();
    f.lemma_multiset_has_no_duplicates_conv();
    assert forall|i: int| 0 <= i < f.len() implies exists|a: int| 0 <= a < n.len() && n[a] == #[trigger] f[i] by {
        assert(f.contains(f[i]));
        assert(f.to_multiset().count(f[i]) > 0);
        assert(n.contains(f[i]));
    }
    assert forall|i: int| 0 <= i < f.len() implies canonical_entry(#[trigger] f[i]) by {
        let a = choose|a: int| 0 <= a < n.len() && n[a] == f[i];
        assert(canonical_entry(n[a]));
    }
    assert forall|i: int, j: int| 0 <= i < j < f.len() implies (#[trigger] f[i]).0 != (
    #[trigger] f[j]).0 && f[i].1 != f[j].1 by {
        let a = choose|a: int| 0 <= a < n.len() && n[a] == f[i];
        let b = choose|b: int| 0 <= b < n.len() && n[b] == f[j];
        assert(f[i] != f[j]);
        assert(a != b);
        if a < b {
            assert(n[a].0 != n[b].0 && n[a].1 != n[b].1);
        } else {
            assert(n[b].0 != n[a].0 && n[b].1 != n[a].1);
        }
    }
}

/// A normal configuration normalises to itself.
proof fn lemma_normal_config_fixed(f: Seq<DongleView>)
    requires
        normal_config(f),
    ensures
        normalize_entries(f) == Ok::<Seq<DongleView>, (int, ConfigFault)>(f),
    decreases f.len(),
{
    if f.len() > 0 {
        let prefix = f.drop_last();
        assert(normal_config(prefix)) by {
            assert forall|i: int| 0 <= i < prefix.len() implies canonical_entry(#[trigger] prefix[i]) by {
                assert(prefix[i] == f[i]);
            }
            assert forall|i: int, j: int| 0 <= i < j < prefix.len() implies (#[trigger] prefix[i]).0
                != (#[trigger] prefix[j]).0 && prefix[i].1 != prefix[j].1 by {
                assert(prefix[i] == f[i] && prefix[j] == f[j]);
            }
        }
        lemma_normal_config_fixed(prefix);
        let e = f.last();
        assert(canonical_entry(f[f.len() - 1]));
        let id = choose|id: Seq<u8>| id.len() == 8 && e.0 == #[trigger] hex_text(id);
        lemma_hex_text_canonical(id);
        lemma_device_id_roundtrip(id);
        assert(entry_device_id(e) == Ok::<Seq<u8>, DeviceIdError>(id));
        assert(normalized_entry(e, id) == e);
        assert(!exists|j: int| 0 <= j < prefix.len() && (#[trigger] prefix[j]).0 == e.0) by {
            assert forall|j: int| 0 <= j < prefix.len() implies (#[trigger] prefix[j]).0 != e.0 by {
                assert(prefix[j] == f[j]);
                assert(f[j].0 != f[f.len() - 1].0);
            }
        }
        assert(!exists|j: int| 0 <= j < prefix.len() && (#[trigger] prefix[j]).1 == e.1) by {
            assert forall|j: int| 0 <= j < prefix.len() implies (#[trigger] prefix[j]).1 != e.1 by {
                assert(prefix[j] == f[j]);
                assert(f[j].1 != f[f.len() - 1].1);
            }
        }
        assert(prefix.push(e) =~= f);
        assert(f.drop_last() == prefix && f.last() == e);
        assert(normalize_entries(f) == Ok::<Seq<DongleView>, (int, ConfigFault)>(
            prefix.push(normalized_entry(e, id)),
        ));
    } else {
        assert(f =~= Seq::<DongleView>::empty());
    }
}

/// Two endpoint orderings of the same entries are the same list when no two
/// entries share an endpoint.
proof fn lemma_endpoint_order_unique(f: Seq<DongleView>, g: Seq<DongleView>)
    requires
        sorted_by_endpoint(f),
        sorted_by_endpoint(g),
        f.to_multiset() == g.to_multiset(),
        forall|i: int, j: int| 0 <= i < j < f.len() ==> (#[trigger] f[i]).1 != (#[trigger] f[j]).1,
    ensures
        f == g,
    decreases f.len(),
{
    broadcast use vstd::seq_lib::group_to_multiset_ensures;
    broadcast use vstd::multiset::group_multiset_axioms;

    vstd::seq_lib::to_multiset_len(f);
    vstd::seq_lib::to_multiset_len(g);
    assert(f.len() == g.len());
    if f.len() == 0 {
        assert(f =~= g);
    } else {
        let last = f.len() - 1;
        let x = f[last];
        let y = g[last];
        assert(g.contains(x)) by {
            assert(f.contains(x));
            assert(f.to_multiset().count(x) > 0);
        }
        assert(f.contains(y)) by {
            assert(g.contains(y));
            assert(g.to_multiset().count(y) > 0);
        }
        let a = choose|a: int| 0 <= a < f.len() && f[a] == y;
        let b = choose|b: int| 0 <= b < g.len() && g[b] == x;
        if a < last {
            assert(f[a].1 <= f[last].1);
        }
        if b < last {
            assert(g[b].1 <= g[last].1);
        }
        assert(y.1 == x.1);
        if a < last {
            assert(f[a].1 != f[last].1);
        }
        assert(y == x);
        let fp = f.drop_last();
        let gp = g.drop_last();
        assert(fp.push(x) =~= f);
        assert(gp.push(x) =~= g);
        assert(fp.to_multiset() =~= gp.to_multiset()) by {
            vstd::seq_lib::to_multiset_build(fp, x);
            vstd::seq_lib::to_multiset_build(gp, x);
            assert forall|z: DongleView| #[trigger] fp.to_multiset().count(z) == gp.to_multiset().count(z) by {
                assert(fp.to_multiset().insert(x).count(z) == gp.to_multiset().insert(x).count(z));
            }
        }
        assert forall|i: int, j: int| 0 <= i < j < fp.len() implies (#[trigger] fp[i]).1 != (
        #[trigger] fp[j]).1 by {
            assert(fp[i] == f[i] && fp[j] == f[j]);
        }
        assert(sorted_by_endpoint(fp)) by {
            assert forall|i: int, j: int| 0 <= i < j < fp.len() implies (#[trigger] fp[i]).1 <= (
            #[trigger] fp[j]).1 by {
                assert(fp[i] == f[i] && fp[j] == f[j]);
            }
        }
        assert(sorted_by_endpoint(gp)) by {
            assert forall|i: int, j: int| 0 <= i < j < gp.len() implies (#[trigger] gp[i]).1 <= (
            #[trigger] gp[j]).1 by {
                assert(gp[i] == g[i] && gp[j] == g[j]);
            }
        }
        lemma_endpoint_order_unique(fp, gp);
    }
}

/// Normalising twice changes nothing: what `normalize` accepts and leaves in
/// endpoint order (`f`, a reordering of the normalised entries of `m`)
/// normalises to itself, and any endpoint ordering `g` of those entries, as a
/// second `normalize` produces, is `f` itself.
pub proof fn lemma_normalize_twice(m: Seq<DongleView>, f: Seq<DongleView>, g: Seq<DongleView>)
    requires
        normalize_entries(m) is Ok,
        sorted_by_endpoint(f),
        f.to_multiset() == normalize_entries(m)->Ok_0.to_multiset(),
    ensures
        normalize_entries(f) == Ok::<Seq<DongleView>, (int, ConfigFault)>(f),
        sorted_by_endpoint(g) && g.to_multiset() == f.to_multiset() ==> g == f,
{
    lemma_normalized_config_valid(m);
    lemma_normal_config_permuted(normalize_entries(m)->Ok_0, f);
    lemma_normal_config_fixed(f);
    if sorted_by_endpoint(g) && g.to_multiset() == f.to_multiset() {
        lemma_endpoint_order_unique(f, g);
    }
}

} // verus!
