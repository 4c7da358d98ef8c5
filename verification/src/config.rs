use crate::mic::UNIT_VOLUME_BITS;
use vstd::prelude::*;

verus! {

/// A lower-case hexadecimal digit.
pub open spec fn is_lower_hex(c: char) -> bool {
    ('0' as u32 <= c as u32 && c as u32 <= '9' as u32) || ('a' as u32 <= c as u32 && c as u32
        <= 'f' as u32)
}

/// The hyphenated, lower-case text of a random (version 4, RFC 4122 variant)
/// UUID: 36 characters, hyphens at 8, 13, 18 and 23, hex digits elsewhere,
/// the version digit `4` at 14 and the variant digit (8, 9, a or b) at 19.
pub open spec fn is_v4_uuid_text(s: Seq<char>) -> bool {
    &&& s.len() == 36
    &&& forall|i: int|
        0 <= i < 36 ==> if i == 8 || i == 13 || i == 18 || i == 23 {
            s[i] == '-'
        } else {
            is_lower_hex(#[trigger] s[i])
        }
    &&& s[14] == '4'
    &&& (s[19] == '8' || s[19] == '9' || s[19] == 'a' || s[19] == 'b')
}

/// Calls `uuid::Uuid::new_v4` and formats the result with `to_string`, which
/// writes the hyphenated lower-case form. The value is random; only its
/// shape is stated. (`new_v4` panics if the operating system gives no random
/// bytes; nothing here can rule that out.)
#[verifier::external_body]
fn random_uuid_text() -> (s: String)
    ensures
        is_v4_uuid_text(s@),
{
    uuid::Uuid::new_v4().to_string()
}

/// A sound in the board: its id, the label shown, and the file played.
#[derive(Debug, Clone)]
pub struct SoundEntry {
    pub id: String,
    pub label: String,
    pub path: String,
}

impl SoundEntry {
    /// A new entry for the file at `path`, shown as `label`, with a fresh random id.
    pub fn new(label: String, path: String) -> (e: Self)
        ensures
            e.label == label,
            e.path == path,
            is_v4_uuid_text(e.id@),
    {
        SoundEntry { id: random_uuid_text(), label, path }
    }

    /// An identical copy of the entry.
    fn duplicate(&self) -> (e: Self)
        ensures
            e == *self,
    {
        SoundEntry { id: self.id.clone(), label: self.label.clone(), path: self.path.clone() }
    }
}

/// The sounds of `sounds` whose id is not `id`, in order.
pub open spec fn without_id(sounds: Seq<SoundEntry>, id: Seq<char>) -> Seq<SoundEntry>
    decreases sounds.len(),
{
    if sounds.len() == 0 {
        Seq::empty()
    } else {
        let rest = without_id(sounds.drop_last(), id);
        if sounds.last().id@ == id {
            rest
        } else {
            rest.push(sounds.last())
        }
    }
}

/// Removal keeps exactly the sounds whose id differs, in their order: it is
/// the list filtered by that test.
pub proof fn removal_is_filter_by_id(sounds: Seq<SoundEntry>, id: Seq<char>)
    ensures
        without_id(sounds, id) == sounds.filter(|e: SoundEntry| e.id@ != id),
    decreases sounds.len(),
{
    reveal_with_fuel(Seq::filter, 1);
    if sounds.len() > 0 {
        removal_is_filter_by_id(sounds.drop_last(), id);
    }
}

/// Removing an id that no sound has leaves the list as it is.
pub proof fn removing_absent_id_changes_nothing(sounds: Seq<SoundEntry>, id: Seq<char>)
    requires
        forall|i: int| 0 <= i < sounds.len() ==> (#[trigger] sounds[i]).id@ != id,
    ensures
        without_id(sounds, id) == sounds,
    decreases sounds.len(),
{
    if sounds.len() > 0 {
        removing_absent_id_changes_nothing(sounds.drop_last(), id);
        assert(sounds.drop_last().push(sounds.last()) =~= sounds);
    }
}

/// After removing an id, no sound with that id is left, and every sound with
/// another id is still there.
pub proof fn removal_keeps_exactly_other_ids(sounds: Seq<SoundEntry>, id: Seq<char>)
    ensures
        forall|i: int|
            0 <= i < without_id(sounds, id).len() ==> (#[trigger] without_id(sounds, id)[i]).id@
                != id,
        forall|e: SoundEntry| #[trigger]
            sounds.contains(e) && e.id@ != id ==> without_id(sounds, id).contains(e),
        forall|e: SoundEntry| #[trigger]
            without_id(sounds, id).contains(e) ==> sounds.contains(e),
    decreases sounds.len(),
{
    if sounds.len() > 0 {
        let init = sounds.drop_last();
        removal_keeps_exactly_other_ids(init, id);
        let rest = without_id(init, id);
        assert forall|e: SoundEntry| #[trigger]
            sounds.contains(e) && e.id@ != id implies without_id(sounds, id).contains(e) by {
            let k: int = choose|k: int| 0 <= k < sounds.len() && sounds[k] == e;
            if k < sounds.len() - 1 {
                assert(init[k] == e);
                assert(init.contains(e));
                let j: int = choose|j: int| 0 <= j < rest.len() && rest[j] == e;
                if sounds.last().id@ != id {
                    assert(rest.push(sounds.last())[j] == e);
                }
            } else {
                assert(without_id(sounds, id) == rest.push(sounds.last()));
                assert(rest.push(sounds.last())[rest.len() as int] == e);
            }
        }
        assert forall|e: SoundEntry| #[trigger]
            without_id(sounds, id).contains(e) implies sounds.contains(e) by {
            let j: int = choose|j: int| 0 <= j < without_id(sounds, id).len() && without_id(sounds, id)[j] == e;
            if j < rest.len() {
                assert(rest[j] == e);
                assert(rest.contains(e));
                let k: int = choose|k: int| 0 <= k < init.len() && init[k] == e;
                assert(sounds[k] == e);
            } else {
                assert(sounds[sounds.len() - 1] == e);
            }
        }
    }
}

/// Removing the sound just added, when its id was new to the list, gives the
/// list back as it was before the addition.
pub proof fn remove_undoes_add(sounds: Seq<SoundEntry>, added: SoundEntry)
    requires
        forall|i: int| 0 <= i < sounds.len() ==> (#[trigger] sounds[i]).id@ != added.id@,
    ensures
        without_id(sounds.push(added), added.id@) == sounds,
{
    assert(sounds.push(added).drop_last() =~= sounds);
    removing_absent_id_changes_nothing(sounds, added.id@);
}

/// Removing the same id twice is the same as removing it once.
pub proof fn removal_is_idempotent(sounds: Seq<SoundEntry>, id: Seq<char>)
    ensures
        without_id(without_id(sounds, id), id) == without_id(sounds, id),
{
    removal_keeps_exactly_other_ids(sounds, id);
    removing_absent_id_changes_nothing(without_id(sounds, id), id);
}

/// The persisted settings: the sound list, the selected devices, the volumes
/// (as the bits of `f32` values) and the microphone shortcut.
#[derive(Debug, Clone)]
pub struct AppConfig {
    pub sounds: Vec<SoundEntry>,
    pub monitor_device: Option<String>,
    pub virtual_device: Option<String>,
    pub mic_device: Option<String>,
    pub mic_volume_bits: u32,
    pub master_volume_bits: u32,
    pub mic_toggle_shortcut: Option<String>,
}

/// What the user interface needs when it starts.
#[derive(Debug)]
pub struct InitData {
    pub sounds: Vec<SoundEntry>,
    pub devices: Vec<String>,
    pub monitor_device: Option<String>,
    pub virtual_device: Option<String>,
}

impl Default for AppConfig {
    /// No sounds, no devices, full volumes, no shortcut.
    fn default() -> (c: Self)
        ensures
            c.sounds@.len() == 0,
            c.monitor_device is None,
            c.virtual_device is None,
            c.mic_device is None,
            c.mic_volume_bits == UNIT_VOLUME_BITS,
            c.master_volume_bits == UNIT_VOLUME_BITS,
            c.mic_toggle_shortcut is None,
    {
        AppConfig {
            sounds: Vec::new(),
            monitor_device: None,
            virtual_device: None,
            mic_device: None,
            mic_volume_bits: UNIT_VOLUME_BITS,
            master_volume_bits: UNIT_VOLUME_BITS,
            mic_toggle_shortcut: None,
        }
    }
}

/// A copy of an optional name.
fn copy_name(name: &Option<String>) -> (r: Option<String>)
    ensures
        r == *name,
{
    match name {
        Some(n) => Some(n.clone()),
        None => None,
    }
}

impl AppConfig {
    /// What the user interface starts from: the sound list and the selected
    /// outputs of this configuration, with the output devices found.
    pub fn init_data(&self, devices: Vec<String>) -> (d: InitData)
        ensures
            d.sounds@ == self.sounds@,
            d.devices == devices,
            d.monitor_device == self.monitor_device,
            d.virtual_device == self.virtual_device,
    {
        let mut sounds: Vec<SoundEntry> = Vec::new();
        let n: usize = self.sounds.len();
        let mut i: usize = 0;
        while i < n
            invariant
                n == self.sounds@.len(),
                i <= n,
                sounds@ == self.sounds@.take(i as int),
            decreases n - i,
        {
            sounds.push(self.sounds[i].duplicate());
            i = i + 1;
            assert(sounds@ =~= self.sounds@.take(i as int));
        }
        assert(self.sounds@.take(n as int) =~= self.sounds@);
        InitData {
            sounds,
            devices,
            monitor_device: copy_name(&self.monitor_device),
            virtual_device: copy_name(&self.virtual_device),
        }
    }

    /// Adds a new sound for the file at `path`, shown as `label`, at the end
    /// of the list, and returns it.
    pub fn add_sound(&mut self, label: String, path: String) -> (e: SoundEntry)
        ensures
            final(self).sounds@ == old(self).sounds@.push(e),
            e.label == label,
            e.path == path,
            is_v4_uuid_text(e.id@),
            final(self).monitor_device == old(self).monitor_device,
            final(self).virtual_device == old(self).virtual_device,
            final(self).mic_device == old(self).mic_device,
            final(self).mic_volume_bits == old(self).mic_volume_bits,
            final(self).master_volume_bits == old(self).master_volume_bits,
            final(self).mic_toggle_shortcut == old(self).mic_toggle_shortcut,
    {
        let entry = SoundEntry::new(label, path);
        self.sounds.push(entry.duplicate());
        entry
    }

    /// Removes every sound whose id is `id`; the others keep their order.
    pub fn remove_sound(&mut self, id: &String)
        ensures
            final(self).sounds@ == without_id(old(self).sounds@, id@),
            final(self).monitor_device == old(self).monitor_device,
            final(self).virtual_device == old(self).virtual_device,
            final(self).mic_device == old(self).mic_device,
            final(self).mic_volume_bits == old(self).mic_volume_bits,
            final(self).master_volume_bits == old(self).master_volume_bits,
            final(self).mic_toggle_shortcut == old(self).mic_toggle_shortcut,
    {
        let mut held: Vec<SoundEntry> = Vec::new();
        std::mem::swap(&mut held, &mut self.sounds);
        let ghost orig = held@;
        let ghost mut i: int = 0;
        let mut kept: Vec<SoundEntry> = Vec::new();
        while held.len() > 0
            invariant
                0 <= i <= orig.len(),
                held@ == orig.skip(i),
                kept@ == without_id(orig.take(i), id@),
            decreases held@.len(),
        {
            let entry = held.remove(0);
            let keep = entry.id != *id;
            proof {
                assert(entry == orig[i]);
                assert(orig.take(i + 1).drop_last() =~= orig.take(i));
                i = i + 1;
                assert(held@ =~= orig.skip(i));
            }
            if keep {
                kept.push(entry);
            }
        }
        proof {
            assert(orig.take(i) =~= orig);
        }
        self.sounds = kept;
    }

    /// Records the selected monitor and virtual output devices.
    pub fn set_output_devices(&mut self, monitor: Option<String>, virtual_device: Option<String>)
        ensures
            final(self).monitor_device == monitor,
            final(self).virtual_device == virtual_device,
            final(self).sounds == old(self).sounds,
            final(self).mic_device == old(self).mic_device,
            final(self).mic_volume_bits == old(self).mic_volume_bits,
            final(self).master_volume_bits == old(self).master_volume_bits,
            final(self).mic_toggle_shortcut == old(self).mic_toggle_shortcut,
    {
        self.monitor_device = monitor;
        self.virtual_device = virtual_device;
    }
}

} // verus!
