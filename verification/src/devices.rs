//! Device descriptions for the front end: what the backends report,
//! turned into the rows the UI lists, and the user's display aliases.

use vstd::prelude::*;
use crate::core_types::{DeviceId, DeviceInfo, DeviceKind};
use crate::guard::{CommandError, CommandErrorKind, command_failure};
use crate::table::DeviceTable;
use crate::text::{ends_with, str_eq, trim, char_count, trim_spec};

verus! {

/// One device row as the front end receives it.
#[derive(Debug, Clone)]
pub struct DeviceDto {
    pub id: String,
    pub name: String,
    /// Stable backend id; the front end stores it in the session profile.
    pub endpoint_id: Option<String>,
    pub kind: String,
    pub sample_rate: u32,
    pub channels: u16,
    pub is_default: bool,
    /// The device only captures (a microphone and the like); the UI hides
    /// it by default and does not let it be added as an output.
    pub is_input_only: bool,
}

/// Name of a device kind, as `Debug` prints it.
pub open spec fn kind_name(k: DeviceKind) -> Seq<char> {
    match k {
        DeviceKind::Wired => "Wired"@,
        DeviceKind::Bluetooth => "Bluetooth"@,
        DeviceKind::Virtual => "Virtual"@,
        DeviceKind::Network => "Network"@,
        DeviceKind::Unknown => "Unknown"@,
    }
}

/// Name of a device kind, as `Debug` prints it.
pub fn kind_label(k: DeviceKind) -> (r: String)
    ensures
        r@ == kind_name(k),
{
    match k {
        DeviceKind::Wired => "Wired".to_owned(),
        DeviceKind::Bluetooth => "Bluetooth".to_owned(),
        DeviceKind::Virtual => "Virtual".to_owned(),
        DeviceKind::Network => "Network".to_owned(),
        DeviceKind::Unknown => "Unknown".to_owned(),
    }
}

/// An optional string's text.
pub open spec fn opt_text(o: Option<String>) -> Option<Seq<char>> {
    match o {
        Some(s) => Some(s@),
        None => None,
    }
}

/// The row for `d`: the same fields, the kind by name, and the input-only
/// mark.
pub open spec fn dto_of(d: DeviceInfo, input_only: bool, r: DeviceDto) -> bool {
    &&& r.id@ == d.id@
    &&& r.name@ == d.name@
    &&& opt_text(r.endpoint_id) == opt_text(d.endpoint_id)
    &&& r.kind@ == kind_name(d.kind)
    &&& r.sample_rate == d.sample_rate
    &&& r.channels == d.channels
    &&& r.is_default == d.is_default
    &&& r.is_input_only == input_only
}

fn clone_opt(o: &Option<String>) -> (r: Option<String>)
    ensures
        opt_text(r) == opt_text(*o),
{
    match o {
        Some(s) => Some(s.clone()),
        None => None,
    }
}

/// The row for one device.
pub fn device_dto(d: &DeviceInfo, is_input_only: bool) -> (r: DeviceDto)
    ensures
        dto_of(*d, is_input_only, r),
{
    DeviceDto {
        id: d.id.to_text(),
        name: d.name.clone(),
        endpoint_id: clone_opt(&d.endpoint_id),
        kind: kind_label(d.kind),
        sample_rate: d.sample_rate,
        channels: d.channels,
        is_default: d.is_default,
        is_input_only,
    }
}

/// The rows for the output devices, in order.
pub fn list_outputs(outputs: &Vec<DeviceInfo>) -> (r: Vec<DeviceDto>)
    ensures
        r@.len() == outputs@.len(),
        forall|i: int| 0 <= i < r@.len() ==> dto_of(outputs@[i], false, #[trigger] r@[i]),
{
    let mut out: Vec<DeviceDto> = Vec::new();
    let mut i: usize = 0;
    while i < outputs.len()
        invariant
            i <= outputs@.len(),
            out@.len() == i,
            forall|j: int| 0 <= j < i ==> dto_of(outputs@[j], false, #[trigger] out@[j]),
        decreases outputs@.len() - i,
    {
        out.push(device_dto(&outputs[i], false));
        i = i + 1;
    }
    out
}

/// Whether `name` is among the devices' names.
pub open spec fn has_name(devices: Seq<DeviceInfo>, name: Seq<char>) -> bool {
    exists|j: int| 0 <= j < devices.len() && #[trigger] devices[j].name@ == name
}

fn name_in(devices: &Vec<DeviceInfo>, name: &String) -> (r: bool)
    ensures
        r == has_name(devices@, name@),
{
    let mut i: usize = 0;
    while i < devices.len()
        invariant
            i <= devices@.len(),
            forall|j: int| 0 <= j < i ==> #[trigger] devices@[j].name@ != name@,
        decreases devices@.len() - i,
    {
        if devices[i].name == *name {
            return true;
        }
        i = i + 1;
    }
    false
}

/// Every device of the system: the outputs, then each input whose name is
/// not already an output (the capture side of a duplex device is shown
/// once, as the output), marked input-only.
pub fn list_all_devices(outputs: &Vec<DeviceInfo>, inputs: &Vec<DeviceInfo>) -> (r: Vec<DeviceDto>)
    ensures
        r@.len() >= outputs@.len(),
        forall|i: int| 0 <= i < outputs@.len() ==> dto_of(outputs@[i], false, #[trigger] r@[i]),
        ({
            let kept = inputs@.filter(|d: DeviceInfo| !has_name(outputs@, d.name@));
            &&& r@.len() == outputs@.len() + kept.len()
            &&& forall|i: int| 0 <= i < kept.len() ==> dto_of(kept[i], true, #[trigger] r@[outputs@.len() + i])
        }),
{
    let mut out = list_outputs(outputs);
    let ghost kept_of = |s: Seq<DeviceInfo>| s.filter(|d: DeviceInfo| !has_name(outputs@, d.name@));
    let mut i: usize = 0;
    while i < inputs.len()
        invariant
            i <= inputs@.len(),
            out@.len() == outputs@.len() + inputs@.take(i as int).filter(|d: DeviceInfo| !has_name(outputs@, d.name@)).len(),
            forall|j: int| 0 <= j < outputs@.len() ==> dto_of(outputs@[j], false, #[trigger] out@[j]),
            forall|j: int| 0 <= j < inputs@.take(i as int).filter(|d: DeviceInfo| !has_name(outputs@, d.name@)).len() ==> dto_of(
                inputs@.take(i as int).filter(|d: DeviceInfo| !has_name(outputs@, d.name@))[j],
                true,
                #[trigger] out@[outputs@.len() + j],
            ),
        decreases inputs@.len() - i,
    {
        let ghost before = inputs@.take(i as int).filter(|d: DeviceInfo| !has_name(outputs@, d.name@));
        let ghost after = inputs@.take(i + 1).filter(|d: DeviceInfo| !has_name(outputs@, d.name@));
        proof {
            assert(inputs@.take(i + 1).drop_last() =~= inputs@.take(i as int));
            reveal_with_fuel(Seq::filter, 1);
        }
        let d = &inputs[i];
        if !name_in(outputs, &d.name) {
            assert(after == before.push(inputs@[i as int]));
            out.push(device_dto(d, true));
        } else {
            assert(after == before);
        }
        i = i + 1;
    }
    assert(inputs@.take(inputs@.len() as int) =~= inputs@);
    out
}

/// Whether a device name is a PulseAudio/PipeWire monitor source (the
/// capture side of a sink, which cannot be played into).
pub fn is_monitor_source(name: Option<&str>) -> (r: bool)
    ensures
        r == (match name {
            Some(n) => n@.len() >= ".monitor"@.len() && n@.subrange(n@.len() - ".monitor"@.len(), n@.len() as int) == ".monitor"@,
            None => false,
        }),
{
    match name {
        Some(n) => ends_with(n, ".monitor"),
        None => false,
    }
}

/// Whether a device is the default one: both names are known and equal.
pub fn is_default_name(default_name: Option<&str>, name: Option<&str>) -> (r: bool)
    ensures
        r == (match (default_name, name) {
            (Some(a), Some(b)) => a@ == b@,
            _ => false,
        }),
{
    match (default_name, name) {
        (Some(a), Some(b)) => str_eq(a, b),
        _ => false,
    }
}

/// The value stored for `name` among `(name, endpoint id)` pairs, as a
/// map built from them in order gives it: the last pair with that name
/// wins.
pub open spec fn lookup_last(pairs: Seq<(String, String)>, name: Seq<char>) -> Option<Seq<char>>
    decreases pairs.len(),
{
    if pairs.len() == 0 {
        None
    } else if pairs.last().0@ == name {
        Some(pairs.last().1@)
    } else {
        lookup_last(pairs.drop_last(), name)
    }
}

fn lookup_endpoint(pairs: &Vec<(String, String)>, name: &String) -> (r: Option<String>)
    ensures
        opt_text(r) == lookup_last(pairs@, name@),
{
    let mut i: usize = pairs.len();
    assert(pairs@.take(i as int) =~= pairs@);
    while i > 0
        invariant
            i <= pairs@.len(),
            lookup_last(pairs@, name@) == lookup_last(pairs@.take(i as int), name@),
        decreases i,
    {
        assert(pairs@.take(i as int).drop_last() =~= pairs@.take(i - 1));
        assert(pairs@.take(i as int).last() == pairs@[i - 1]);
        if pairs[i - 1].0 == *name {
            return Some(pairs[i - 1].1.clone());
        }
        i = i - 1;
    }
    assert(pairs@.take(0).len() == 0);
    None
}

/// Describes a device from what the backend could tell: the name
/// (`"unknown"` when it could not be read), the sample rate and channels
/// (48 kHz stereo when no configuration could be read), the default mark,
/// and the endpoint id found under the name in `endpoint_lookup` (the
/// last pair with that name, as in a map filled from the pairs).
pub fn describe(
    name: Option<String>,
    config: Option<(u32, u16)>,
    is_default: bool,
    endpoint_lookup: Option<&Vec<(String, String)>>,
) -> (r: DeviceInfo)
    ensures
        r.name@ == (match name {
            Some(n) => n@,
            None => "unknown"@,
        }),
        r.id@ == r.name@,
        r.kind == DeviceKind::Unknown,
        (r.sample_rate, r.channels) == (match config {
            Some(c) => c,
            None => (crate::DEFAULT_SAMPLE_RATE, crate::DEFAULT_CHANNELS),
        }),
        r.is_default == is_default,
        opt_text(r.endpoint_id) == (match endpoint_lookup {
            Some(pairs) => lookup_last(pairs@, r.name@),
            None => None,
        }),
{
    let name = match name {
        Some(n) => n,
        None => "unknown".to_owned(),
    };
    let (sample_rate, channels) = match config {
        Some(c) => c,
        None => (crate::DEFAULT_SAMPLE_RATE, crate::DEFAULT_CHANNELS),
    };
    let endpoint_id = match endpoint_lookup {
        Some(pairs) => lookup_endpoint(pairs, &name),
        None => None,
    };
    DeviceInfo {
        id: DeviceId(name.clone()),
        name,
        kind: DeviceKind::Unknown,
        sample_rate,
        channels,
        is_default,
        endpoint_id,
    }
}

/// What CoreAudio reports about one audio object.
#[derive(Debug, Clone)]
pub struct CoreAudioObject {
    pub id: u32,
    /// Channels in the requested direction (0: none).
    pub channels: u16,
    /// The object's name, if it could be read.
    pub name: Option<String>,
    /// Nominal sample rate, if it could be read.
    pub sample_rate: Option<u32>,
}

/// The device for an audio object that has channels and a name.
pub open spec fn core_audio_device(o: CoreAudioObject, default_id: Option<u32>, d: DeviceInfo) -> bool {
    &&& o.name is Some
    &&& d.name@ == o.name->0@
    &&& d.id@ == d.name@
    &&& d.kind == DeviceKind::Unknown
    &&& d.sample_rate == (match o.sample_rate {
        Some(sr) => sr,
        None => crate::DEFAULT_SAMPLE_RATE,
    })
    &&& d.channels == o.channels
    &&& d.is_default == (default_id == Some(o.id))
    &&& d.endpoint_id is None
}

/// Whether CoreAudio lists an object as a device in that direction.
pub open spec fn is_listed(o: CoreAudioObject) -> bool {
    o.channels != 0 && o.name is Some
}

/// The devices among CoreAudio's audio objects: those with channels in
/// the direction and a readable name, in order.
pub fn collect_core_audio_devices(objects: &Vec<CoreAudioObject>, default_id: Option<u32>) -> (r: Vec<DeviceInfo>)
    ensures
        r@.len() == objects@.filter(|o: CoreAudioObject| is_listed(o)).len(),
        forall|i: int| 0 <= i < r@.len() ==> core_audio_device(
            objects@.filter(|o: CoreAudioObject| is_listed(o))[i],
            default_id,
            #[trigger] r@[i],
        ),
        forall|i: int| 0 <= i < r@.len() ==> {
            let o = objects@.filter(|o: CoreAudioObject| is_listed(o))[i];
            &&& o.sample_rate matches Some(sr) ==> #[trigger] r@[i].sample_rate == sr
            &&& o.sample_rate is None ==> r@[i].sample_rate == 48_000
            &&& r@[i].channels == o.channels && r@[i].channels != 0
            &&& o.name matches Some(n) && r@[i].name@ == n@
            &&& r@[i].is_default == (default_id == Some(o.id))
        },
{
    let mut out: Vec<DeviceInfo> = Vec::new();
    let mut i: usize = 0;
    while i < objects.len()
        invariant
            i <= objects@.len(),
            out@.len() == objects@.take(i as int).filter(|o: CoreAudioObject| is_listed(o)).len(),
            forall|j: int| 0 <= j < out@.len() ==> core_audio_device(
                objects@.take(i as int).filter(|o: CoreAudioObject| is_listed(o))[j],
                default_id,
                #[trigger] out@[j],
            ),
        decreases objects@.len() - i,
    {
        let ghost before = objects@.take(i as int).filter(|o: CoreAudioObject| is_listed(o));
        let ghost after = objects@.take(i + 1).filter(|o: CoreAudioObject| is_listed(o));
        proof {
            assert(objects@.take(i + 1).drop_last() =~= objects@.take(i as int));
            reveal_with_fuel(Seq::filter, 1);
        }
        let o = &objects[i];
        if o.channels != 0 {
            match &o.name {
                Some(n) => {
                    assert(after == before.push(objects@[i as int]));
                    let is_default = match default_id {
                        Some(d) => d == o.id,
                        None => false,
                    };
                    out.push(DeviceInfo {
                        id: DeviceId(n.clone()),
                        name: n.clone(),
                        kind: DeviceKind::Unknown,
                        sample_rate: match o.sample_rate {
                            Some(sr) => sr,
                            None => crate::DEFAULT_SAMPLE_RATE,
                        },
                        channels: o.channels,
                        is_default,
                        endpoint_id: None,
                    });
                },
                None => {
                    assert(after == before);
                },
            }
        } else {
            assert(after == before);
        }
        i = i + 1;
    }
    assert(objects@.take(objects@.len() as int) =~= objects@);
    proof {
        let listed = objects@.filter(|o: CoreAudioObject| is_listed(o));
        assert forall|i: int| 0 <= i < out@.len() implies is_listed(#[trigger] listed[i]) by {
            objects@.filter_lemma(|o: CoreAudioObject| is_listed(o));
        }
    }
    out
}

/// A listed audio object becomes a device with what CoreAudio reported:
/// its name, its channel count, its nominal sample rate (48 kHz only when
/// none could be read), and the default mark of the default object.
pub proof fn law_core_audio_device_reports_the_object(o: CoreAudioObject, default_id: Option<u32>, d: DeviceInfo)
    requires
        core_audio_device(o, default_id, d),
    ensures
        o.sample_rate matches Some(sr) ==> d.sample_rate == sr,
        o.sample_rate is None ==> d.sample_rate == 48_000,
        o.name matches Some(n) && d.name@ == n@,
        d.channels == o.channels,
        d.is_default == (default_id == Some(o.id)),
{
}

/// Output format of a device: `None` without output channels, else the
/// nominal rate (48 kHz when unknown) and the channel count.
pub fn output_format(channels: u16, sample_rate: Option<u32>) -> (r: Option<(u32, u16)>)
    ensures
        channels == 0 ==> r is None,
        channels != 0 ==> r == Some((
            match sample_rate {
                Some(sr) => sr,
                None => crate::DEFAULT_SAMPLE_RATE,
            },
            channels,
        )),
{
    if channels == 0 {
        return None;
    }
    let sr = match sample_rate {
        Some(sr) => sr,
        None => crate::DEFAULT_SAMPLE_RATE,
    };
    Some((sr, channels))
}

/// Sum of the per-buffer channel counts, each taken as a `u16`,
/// saturating at `u16::MAX`.
pub open spec fn channels_total(counts: Seq<u32>) -> int
    decreases counts.len(),
{
    if counts.len() == 0 {
        0
    } else {
        let t = channels_total(counts.drop_last()) + (counts.last() as u16) as int;
        if t > u16::MAX { u16::MAX as int } else { t }
    }
}

/// Total channels of a device from its stream configuration's buffers.
pub fn total_channels(counts: &Vec<u32>) -> (r: u16)
    ensures
        r == channels_total(counts@),
{
    let mut total: u16 = 0;
    let mut i: usize = 0;
    while i < counts.len()
        invariant
            i <= counts@.len(),
            total == channels_total(counts@.take(i as int)),
        decreases counts@.len() - i,
    {
        assert(counts@.take(i + 1).drop_last() =~= counts@.take(i as int));
        let c = counts[i] as u16;
        total = total.saturating_add(c);
        i = i + 1;
    }
    assert(counts@.take(counts@.len() as int) =~= counts@);
    total
}

/// Longest alias, in characters.
pub const DEVICE_ALIAS_MAX_LEN: usize = 80;

/// Display names that the user gave devices, by endpoint id.
pub struct DeviceAliases {
    table: DeviceTable<String>,
}

impl DeviceAliases {
    /// The aliases, by endpoint id.
    pub closed spec fn alias_map(&self) -> Map<Seq<char>, Seq<char>> {
        self.table@.map_values(|s: String| s@)
    }

    /// The invariant: endpoint ids are unique.
    pub closed spec fn wf(&self) -> bool {
        self.table.wf()
    }

    /// No aliases.
    pub fn new() -> (r: Self)
        ensures
            r.wf(),
            r.alias_map() == Map::<Seq<char>, Seq<char>>::empty(),
    {
        let r = DeviceAliases { table: DeviceTable::new() };
        assert(r.alias_map() =~= Map::<Seq<char>, Seq<char>>::empty());
        r
    }

    /// Sets or replaces the alias of an endpoint.
    pub fn insert(&mut self, endpoint_id: String, alias: String)
        requires
            old(self).wf(),
        ensures
            final(self).wf(),
            final(self).alias_map() == old(self).alias_map().insert(endpoint_id@, alias@),
    {
        let ghost pre = self.alias_map();
        let ghost k = endpoint_id@;
        let ghost v = alias@;
        self.table.insert(DeviceId(endpoint_id), alias);
        assert(self.alias_map() =~= pre.insert(k, v));
    }

    /// Removes the alias of an endpoint, if there is one.
    pub fn remove(&mut self, endpoint_id: &str)
        requires
            old(self).wf(),
        ensures
            final(self).wf(),
            final(self).alias_map() == old(self).alias_map().remove(endpoint_id@),
    {
        let ghost pre = self.alias_map();
        let id = DeviceId::from_str(endpoint_id);
        self.table.remove(&id);
        assert(self.alias_map() =~= pre.remove(endpoint_id@));
    }

    /// The alias of an endpoint, if it has one.
    pub fn get(&self, endpoint_id: &str) -> (r: Option<String>)
        requires
            self.wf(),
        ensures
            opt_text(r) == (if self.alias_map().contains_key(endpoint_id@) {
                Some(self.alias_map()[endpoint_id@])
            } else {
                None
            }),
    {
        let id = DeviceId::from_str(endpoint_id);
        match self.table.find(&id) {
            Some(i) => {
                proof {
                    self.table.lemma_index(i as int);
                }
                Some(self.table.value_at(i).clone())
            },
            None => None,
        }
    }

    /// All `(endpoint id, alias)` pairs, each endpoint once.
    pub fn entries(&self) -> (r: Vec<(String, String)>)
        requires
            self.wf(),
        ensures
            r@.map_values(|e: (String, String)| e.0@).no_duplicates(),
            r@.map_values(|e: (String, String)| e.0@).to_set() == self.alias_map().dom(),
            forall|i: int| 0 <= i < r@.len() ==> #[trigger] self.alias_map()[r@[i].0@] == r@[i].1@,
    {
        let n = self.table.len();
        let mut out: Vec<(String, String)> = Vec::new();
        let mut i: usize = 0;
        proof {
            self.table.lemma_dom();
        }
        while i < n
            invariant
                self.table.wf(),
                n == self.table.size(),
                i <= n,
                out@.len() == i,
                forall|j: int| 0 <= j < i ==> #[trigger] out@[j].0@ == self.table.keys()[j],
                forall|j: int| 0 <= j < i ==> #[trigger] out@[j].1 == self.table.values()[j],
            decreases n - i,
        {
            let k = self.table.key_at(i).to_text();
            let v = self.table.value_at(i).clone();
            out.push((k, v));
            i = i + 1;
        }
        proof {
            let ks = out@.map_values(|e: (String, String)| e.0@);
            assert(ks =~= self.table.keys());
            assert forall|a: int, b: int| 0 <= a < ks.len() && 0 <= b < ks.len() && a != b implies ks[a] != ks[b] by {
                self.table.lemma_keys_distinct(a, b);
            }
            assert forall|j: int| 0 <= j < out@.len() implies #[trigger] self.alias_map()[out@[j].0@] == out@[j].1@ by {
                self.table.lemma_index(j);
            }
            assert(ks.to_set() =~= self.alias_map().dom());
        }
        out
    }
}

/// The alias that a request sets: the requested text without surrounding
/// whitespace (empty when none was given).
pub open spec fn requested_alias(alias: Option<&str>) -> Seq<char> {
    match alias {
        Some(a) => trim_spec(a@),
        None => Seq::empty(),
    }
}

/// Checks the endpoint id of an alias request: one that is empty after
/// trimming is a bad request.
pub fn check_endpoint_id(endpoint_id: &str) -> (r: Result<(), CommandError>)
    ensures
        trim_spec(endpoint_id@).len() == 0 ==> command_failure(r) == Some((CommandErrorKind::BadRequest, "empty endpoint_id"@)),
        trim_spec(endpoint_id@).len() > 0 ==> r is Ok,
{
    let t = trim(endpoint_id);
    if char_count(t.as_str()) == 0 {
        return Err(CommandError::bad_request("empty endpoint_id"));
    }
    Ok(())
}

/// Renames a device for display, or clears its alias.
///
/// An endpoint id that is empty after trimming is a bad request. An
/// alias that is empty after trimming (or absent) removes the endpoint's
/// alias; one longer than `DEVICE_ALIAS_MAX_LEN` characters is a bad
/// request; any other is stored, trimmed.
pub fn set_device_alias(aliases: &mut DeviceAliases, endpoint_id: &str, alias: Option<&str>) -> (r: Result<(), CommandError>)
    requires
        old(aliases).wf(),
    ensures
        final(aliases).wf(),
        trim_spec(endpoint_id@).len() == 0 ==> command_failure(r) == Some((CommandErrorKind::BadRequest, "empty endpoint_id"@))
            && final(aliases).alias_map() == old(aliases).alias_map(),
        trim_spec(endpoint_id@).len() > 0 && requested_alias(alias).len() == 0 ==> r is Ok
            && final(aliases).alias_map() == old(aliases).alias_map().remove(endpoint_id@),
        trim_spec(endpoint_id@).len() > 0 && requested_alias(alias).len() > DEVICE_ALIAS_MAX_LEN ==> command_failure(r)
            == Some((CommandErrorKind::BadRequest, "alias too long (max 80 chars)"@))
            && final(aliases).alias_map() == old(aliases).alias_map(),
        trim_spec(endpoint_id@).len() > 0 && 0 < requested_alias(alias).len() <= DEVICE_ALIAS_MAX_LEN ==> r is Ok
            && final(aliases).alias_map() == old(aliases).alias_map().insert(endpoint_id@, requested_alias(alias)),
{
    match check_endpoint_id(endpoint_id) {
        Err(e) => {
            return Err(e);
        },
        Ok(()) => {},
    }
    let trimmed = match alias {
        Some(a) => trim(a),
        None => String::new(),
    };
    let n = char_count(trimmed.as_str());
    if n == 0 {
        aliases.remove(endpoint_id);
        return Ok(());
    }
    if n > DEVICE_ALIAS_MAX_LEN {
        return Err(CommandError::bad_request("alias too long (max 80 chars)"));
    }
    aliases.insert(endpoint_id.to_owned(), trimmed);
    Ok(())
}

} // verus!
