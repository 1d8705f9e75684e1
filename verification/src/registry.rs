//! What the server remembers per camera label: which devices a browser is
//! watching, and the channels on which a camera's frames arrive.

use crate::error::CaptureError;
use crate::label::Label;
use crate::table::{
    distinct_labels, entries_map, find_label, holds_key, lemma_key_index_unique, lemma_push,
    lemma_remove, lemma_update,
};
use vstd::prelude::*;

verus! {

#[verifier::external_type_specification]
#[verifier::external_body]
#[verifier::reject_recursive_types(T)]
pub struct ExReceiver<T>(async_channel::Receiver<T>);

/// The two kinds of device a camera streams from.
#[derive(Clone, Copy, Debug, PartialEq, Eq, Structural)]
pub enum DeviceEnum {
    Video,
    Audio,
}

/// Whether a browser is watching the video and the audio of a camera.
#[derive(Debug)]
pub struct DeviceFlag {
    video_flag: bool,
    audio_flag: bool,
}

impl View for DeviceFlag {
    /// (video watched, audio watched)
    type V = (bool, bool);

    closed spec fn view(&self) -> (bool, bool) {
        (self.video_flag, self.audio_flag)
    }
}

impl DeviceFlag {
    /// The flags `(video_flag, audio_flag)`.
    pub fn new(video_flag: bool, audio_flag: bool) -> (r: Self)
        ensures
            r@ == (video_flag, audio_flag),
    {
        DeviceFlag { video_flag, audio_flag }
    }
}

impl Default for DeviceFlag {
    fn default() -> (r: Self)
        ensures
            r@ == (false, false),
    {
        DeviceFlag::new(false, false)
    }
}

/// `flags` with the flag of `device` set to `f`.
pub open spec fn flag_set(flags: (bool, bool), device: DeviceEnum, f: bool) -> (bool, bool) {
    match device {
        DeviceEnum::Video => (f, flags.1),
        DeviceEnum::Audio => (flags.0, f),
    }
}

/// The registry after `set_flag(k, f, device)`: a known label has the flag
/// of `device` set to `f`; an unknown label leaves the registry as it was.
pub open spec fn flags_after_set(
    m: Map<Seq<u8>, (bool, bool)>,
    k: Seq<u8>,
    f: bool,
    device: DeviceEnum,
) -> Map<Seq<u8>, (bool, bool)> {
    if m.contains_key(k) {
        m.insert(k, flag_set(m[k], device, f))
    } else {
        m
    }
}

/// The registry after `insert(k, v)`: a new label takes `v`; a known label
/// keeps its flags and also raises those that `v` raises.
pub open spec fn flags_after_insert(
    m: Map<Seq<u8>, (bool, bool)>,
    k: Seq<u8>,
    v: (bool, bool),
) -> Map<Seq<u8>, (bool, bool)> {
    if m.contains_key(k) {
        m.insert(k, (m[k].0 || v.0, m[k].1 || v.1))
    } else {
        m.insert(k, v)
    }
}

/// Which devices are watched, per label.
pub struct LabelFlagMap {
    table: Vec<(Label, DeviceFlag)>,
}

impl View for LabelFlagMap {
    type V = Map<Seq<u8>, (bool, bool)>;

    closed spec fn view(&self) -> Map<Seq<u8>, (bool, bool)> {
        entries_map(self.table@).map_values(|f: DeviceFlag| f@)
    }
}

impl Default for LabelFlagMap {
    fn default() -> (r: Self)
        ensures
            r@ == Map::<Seq<u8>, (bool, bool)>::empty(),
    {
        let r = LabelFlagMap { table: Vec::new() };
        assert(r@ =~= Map::<Seq<u8>, (bool, bool)>::empty());
        r
    }
}

impl LabelFlagMap {
    #[verifier::type_invariant]
    spec fn no_repeated_label(self) -> bool {
        distinct_labels(self.table@)
    }

    proof fn lemma_view_push(s: Seq<(Label, DeviceFlag)>, l: Label, v: DeviceFlag)
        requires
            distinct_labels(s),
            !holds_key(s, l@),
        ensures
            distinct_labels(s.push((l, v))),
            entries_map(s.push((l, v))).map_values(|f: DeviceFlag| f@) == entries_map(s).map_values(
                |f: DeviceFlag| f@,
            ).insert(l@, v@),
    {
        lemma_push(s, l, v);
        assert(entries_map(s.push((l, v))).map_values(|f: DeviceFlag| f@) =~= entries_map(
            s,
        ).map_values(|f: DeviceFlag| f@).insert(l@, v@));
    }

    proof fn lemma_view_update(s: Seq<(Label, DeviceFlag)>, i: int, v: DeviceFlag)
        requires
            distinct_labels(s),
            0 <= i < s.len(),
        ensures
            distinct_labels(s.update(i, (s[i].0, v))),
            entries_map(s.update(i, (s[i].0, v))).map_values(|f: DeviceFlag| f@) == entries_map(
                s,
            ).map_values(|f: DeviceFlag| f@).insert(s[i].0@, v@),
    {
        lemma_update(s, i, v);
        assert(entries_map(s.update(i, (s[i].0, v))).map_values(|f: DeviceFlag| f@) =~= entries_map(
            s,
        ).map_values(|f: DeviceFlag| f@).insert(s[i].0@, v@));
    }

    /// Registers `k` with the flags `v`; when `k` is already registered, its
    /// flags stay and each flag that `v` raises is raised too.
    pub fn insert(&mut self, k: Label, v: DeviceFlag) -> (r: Result<(), CaptureError>)
        ensures
            r is Ok,
            final(self)@ == flags_after_insert(old(self)@, k@, v@),
    {
        proof {
            use_type_invariant(&*self);
        }
        let mut table: Vec<(Label, DeviceFlag)> = Vec::new();
        std::mem::swap(&mut table, &mut self.table);
        let found = find_label(&table, &k);
        match found {
            None => {
                proof {
                    LabelFlagMap::lemma_view_push(table@, k, v);
                }
                table.push((k, v));
            },
            Some(i) => {
                let video = table[i].1.video_flag || v.video_flag;
                let audio = table[i].1.audio_flag || v.audio_flag;
                let key = table[i].0;
                let updated = DeviceFlag::new(video, audio);
                proof {
                    lemma_key_index_unique(table@, i as int);
                    LabelFlagMap::lemma_view_update(table@, i as int, updated);
                }
                table[i] = (key, updated);
            },
        }
        self.table = table;
        Ok(())
    }

    /// The flags `(video, audio)` of `label`; `EmptyLabelName` when it is not registered.
    pub fn get_flag(&self, label: &Label) -> (r: Result<(bool, bool), CaptureError>)
        ensures
            self@.contains_key(label@) ==> r == Ok::<(bool, bool), CaptureError>(self@[label@]),
            !self@.contains_key(label@) ==> r == Err::<(bool, bool), CaptureError>(
                CaptureError::EmptyLabelName,
            ),
    {
        proof {
            use_type_invariant(self);
        }
        match find_label(&self.table, label) {
            None => Err(CaptureError::EmptyLabelName),
            Some(i) => {
                proof {
                    lemma_key_index_unique(self.table@, i as int);
                }
                Ok((self.table[i].1.video_flag, self.table[i].1.audio_flag))
            },
        }
    }

    /// Sets the flag of `device_enum` for `label` to `f`; `EmptyLabelName`,
    /// with nothing changed, when the label is not registered.
    pub fn set_flag(&mut self, label: &Label, f: bool, device_enum: DeviceEnum) -> (r: Result<
        (),
        CaptureError,
    >)
        ensures
            old(self)@.contains_key(label@) ==> r is Ok && final(self)@ == old(self)@.insert(
                label@,
                flag_set(old(self)@[label@], device_enum, f),
            ),
            !old(self)@.contains_key(label@) ==> r == Err::<(), CaptureError>(
                CaptureError::EmptyLabelName,
            ) && final(self)@ == old(self)@,
            final(self)@ == flags_after_set(old(self)@, label@, f, device_enum),
    {
        proof {
            use_type_invariant(&*self);
        }
        let found = find_label(&self.table, label);
        match found {
            None => Err(CaptureError::EmptyLabelName),
            Some(i) => {
                let mut table: Vec<(Label, DeviceFlag)> = Vec::new();
                std::mem::swap(&mut table, &mut self.table);
                let (video, audio) = match device_enum {
                    DeviceEnum::Video => (f, table[i].1.audio_flag),
                    DeviceEnum::Audio => (table[i].1.video_flag, f),
                };
                let key = table[i].0;
                let updated = DeviceFlag::new(video, audio);
                proof {
                    lemma_key_index_unique(table@, i as int);
                    LabelFlagMap::lemma_view_update(table@, i as int, updated);
                }
                table[i] = (key, updated);
                self.table = table;
                Ok(())
            },
        }
    }

    /// Whether `lab` is registered.
    pub fn is_labeled(&self, lab: &Label) -> (r: bool)
        ensures
            r == self@.contains_key(lab@),
    {
        proof {
            use_type_invariant(self);
        }
        find_label(&self.table, lab).is_some()
    }
}

/// The channels on which a camera's video and audio frames arrive.
#[derive(Debug)]
pub struct DeviceReceiver {
    pub video_receiver: Option<async_channel::Receiver<Vec<u8>>>,
    pub audio_receiver: Option<async_channel::Receiver<Vec<u8>>>,
}

impl DeviceReceiver {
    /// The receivers `video_receiver` and `audio_receiver`.
    pub fn new(
        video_receiver: Option<async_channel::Receiver<Vec<u8>>>,
        audio_receiver: Option<async_channel::Receiver<Vec<u8>>>,
    ) -> (r: Self)
        ensures
            r.video_receiver == video_receiver,
            r.audio_receiver == audio_receiver,
    {
        DeviceReceiver { video_receiver, audio_receiver }
    }
}

/// The receivers of `label` after `v` is attached for `device`: `v` takes the
/// slot of `device`; the other slot keeps what `prev` had there, or is empty.
pub open spec fn receivers_after_insert(
    m: Map<Seq<u8>, DeviceReceiver>,
    k: Seq<u8>,
    v: async_channel::Receiver<Vec<u8>>,
    device: DeviceEnum,
) -> Map<Seq<u8>, DeviceReceiver> {
    let video = match device {
        DeviceEnum::Video => Some(v),
        DeviceEnum::Audio => if m.contains_key(k) {
            m[k].video_receiver
        } else {
            None
        },
    };
    let audio = match device {
        DeviceEnum::Audio => Some(v),
        DeviceEnum::Video => if m.contains_key(k) {
            m[k].audio_receiver
        } else {
            None
        },
    };
    m.insert(k, DeviceReceiver { video_receiver: video, audio_receiver: audio })
}

/// The receivers of each label.
pub struct LabelReceiverMap {
    table: Vec<(Label, DeviceReceiver)>,
}

impl View for LabelReceiverMap {
    type V = Map<Seq<u8>, DeviceReceiver>;

    closed spec fn view(&self) -> Map<Seq<u8>, DeviceReceiver> {
        entries_map(self.table@)
    }
}

impl Default for LabelReceiverMap {
    fn default() -> (r: Self)
        ensures
            r@ == Map::<Seq<u8>, DeviceReceiver>::empty(),
    {
        let r = LabelReceiverMap { table: Vec::new() };
        assert(r@ =~= Map::<Seq<u8>, DeviceReceiver>::empty());
        r
    }
}

impl LabelReceiverMap {
    #[verifier::type_invariant]
    spec fn no_repeated_label(self) -> bool {
        distinct_labels(self.table@)
    }

    /// Attaches `v` as the receiver of `device_enum` for `k`, keeping the
    /// other device's receiver when `k` is already present.
    pub fn insert(&mut self, k: Label, v: async_channel::Receiver<Vec<u8>>, device_enum: DeviceEnum) -> (r:
        Result<(), CaptureError>)
        ensures
            r is Ok,
            final(self)@ == receivers_after_insert(old(self)@, k@, v, device_enum),
    {
        proof {
            use_type_invariant(&*self);
        }
        let mut table: Vec<(Label, DeviceReceiver)> = Vec::new();
        std::mem::swap(&mut table, &mut self.table);
        let found = find_label(&table, &k);
        match found {
            None => {
                let entry = match device_enum {
                    DeviceEnum::Video => DeviceReceiver::new(Some(v), None),
                    DeviceEnum::Audio => DeviceReceiver::new(None, Some(v)),
                };
                proof {
                    lemma_push(table@, k, entry);
                }
                table.push((k, entry));
            },
            Some(i) => {
                proof {
                    lemma_key_index_unique(table@, i as int);
                }
                let ghost before = table@;
                let (key, mut entry) = table.remove(i);
                match device_enum {
                    DeviceEnum::Video => {
                        entry.video_receiver = Some(v);
                    },
                    DeviceEnum::Audio => {
                        entry.audio_receiver = Some(v);
                    },
                }
                proof {
                    lemma_update(before, i as int, entry);
                    assert(before.remove(i as int).insert(i as int, (key, entry)) =~= before.update(
                        i as int,
                        (key, entry),
                    ));
                }
                table.insert(i, (key, entry));
            },
        }
        self.table = table;
        Ok(())
    }

    /// The receivers of `k`, if it is present.
    pub fn get(&self, k: &Label) -> (r: Option<&DeviceReceiver>)
        ensures
            self@.contains_key(k@) ==> r == Some(&self@[k@]),
            !self@.contains_key(k@) ==> r is None,
    {
        proof {
            use_type_invariant(self);
        }
        match find_label(&self.table, k) {
            None => None,
            Some(i) => {
                proof {
                    lemma_key_index_unique(self.table@, i as int);
                }
                Some(&self.table[i].1)
            },
        }
    }

    /// Drops the receivers of `k`; `EmptyLabelName`, with nothing changed,
    /// when `k` is not present.
    pub fn remove(&mut self, k: Label) -> (r: Result<(), CaptureError>)
        ensures
            old(self)@.contains_key(k@) ==> r is Ok && final(self)@ == old(self)@.remove(k@),
            !old(self)@.contains_key(k@) ==> r == Err::<(), CaptureError>(
                CaptureError::EmptyLabelName,
            ) && final(self)@ == old(self)@,
    {
        proof {
            use_type_invariant(&*self);
        }
        let found = find_label(&self.table, &k);
        match found {
            None => Err(CaptureError::EmptyLabelName),
            Some(i) => {
                let mut table: Vec<(Label, DeviceReceiver)> = Vec::new();
                std::mem::swap(&mut table, &mut self.table);
                proof {
                    lemma_remove(table@, i as int);
                }
                let _removed = table.remove(i);
                self.table = table;
                Ok(())
            },
        }
    }
}

/// After `insert(k, v)` the label is registered, and each of its flags is
/// raised exactly when `v` raises it or it was raised before (a new label
/// takes `v` as it is); other labels keep their flags.
pub proof fn law_insert_registers(m: Map<Seq<u8>, (bool, bool)>, k: Seq<u8>, v: (bool, bool))
    ensures
        ({
            let r = flags_after_insert(m, k, v);
            &&& r.contains_key(k)
            &&& v.0 ==> r[k].0
            &&& v.1 ==> r[k].1
            &&& m.contains_key(k) && m[k].0 ==> r[k].0
            &&& m.contains_key(k) && m[k].1 ==> r[k].1
            &&& r[k].0 ==> v.0 || (m.contains_key(k) && m[k].0)
            &&& r[k].1 ==> v.1 || (m.contains_key(k) && m[k].1)
            &&& !m.contains_key(k) ==> r[k] == v
            &&& forall|j: Seq<u8>| j != k ==> (#[trigger] r.contains_key(j) == m.contains_key(j)
                && (m.contains_key(j) ==> r[j] == m[j]))
        }),
{
}

/// Inserting the same flags twice is the same as inserting them once.
pub proof fn law_insert_idempotent(m: Map<Seq<u8>, (bool, bool)>, k: Seq<u8>, v: (bool, bool))
    ensures
        flags_after_insert(flags_after_insert(m, k, v), k, v) == flags_after_insert(m, k, v),
{
    let once = flags_after_insert(m, k, v);
    assert(flags_after_insert(once, k, v) =~= once);
}

/// Setting a device's flag is read back by the next read of the flags; the
/// other device's flag is untouched, and the last of two settings wins.
pub proof fn law_set_flag_read_back(flags: (bool, bool), device: DeviceEnum, f: bool, g: bool)
    ensures
        device == DeviceEnum::Video ==> flag_set(flags, device, f) == (f, flags.1),
        device == DeviceEnum::Audio ==> flag_set(flags, device, f) == (flags.0, f),
        flag_set(flag_set(flags, device, g), device, f) == flag_set(flags, device, f),
{
}

/// Removing a label right after attaching a receiver to it leaves the
/// receivers of every other label as they were, and the label gone.
pub proof fn law_remove_after_insert(
    m: Map<Seq<u8>, DeviceReceiver>,
    k: Seq<u8>,
    v: async_channel::Receiver<Vec<u8>>,
    device: DeviceEnum,
)
    ensures
        receivers_after_insert(m, k, v, device).remove(k) == m.remove(k),
{
    assert(receivers_after_insert(m, k, v, device).remove(k) =~= m.remove(k));
}

/// Attaching a video and then an audio receiver to a label leaves it with
/// both, whatever it had before; the order does not matter.
pub proof fn law_video_and_audio_receivers(
    m: Map<Seq<u8>, DeviceReceiver>,
    k: Seq<u8>,
    video: async_channel::Receiver<Vec<u8>>,
    audio: async_channel::Receiver<Vec<u8>>,
)
    ensures
        ({
            let r = receivers_after_insert(
                receivers_after_insert(m, k, video, DeviceEnum::Video),
                k,
                audio,
                DeviceEnum::Audio,
            );
            &&& r[k].video_receiver == Some(video)
            &&& r[k].audio_receiver == Some(audio)
            &&& r == receivers_after_insert(
                receivers_after_insert(m, k, audio, DeviceEnum::Audio),
                k,
                video,
                DeviceEnum::Video,
            )
        }),
{
    let r1 = receivers_after_insert(
        receivers_after_insert(m, k, video, DeviceEnum::Video),
        k,
        audio,
        DeviceEnum::Audio,
    );
    let r2 = receivers_after_insert(
        receivers_after_insert(m, k, audio, DeviceEnum::Audio),
        k,
        video,
        DeviceEnum::Video,
    );
    assert(r1 =~= r2);
}

/// A call on the watched-device registry: `insert`, `set_flag`, or one of
/// the reads (`get_flag`, `is_labeled`), which change nothing.
pub enum FlagCall {
    Insert(Seq<u8>, (bool, bool)),
    SetFlag(Seq<u8>, bool, DeviceEnum),
    Read,
}

/// The registry after `call`, as the calls' contracts state it.
pub open spec fn flags_after_call(m: Map<Seq<u8>, (bool, bool)>, call: FlagCall) -> Map<
    Seq<u8>,
    (bool, bool),
> {
    match call {
        FlagCall::Insert(k, v) => flags_after_insert(m, k, v),
        FlagCall::SetFlag(k, f, device) => flags_after_set(m, k, f, device),
        FlagCall::Read => m,
    }
}

/// The registry after `calls`, in order.
pub open spec fn flags_after_calls(m: Map<Seq<u8>, (bool, bool)>, calls: Seq<FlagCall>) -> Map<
    Seq<u8>,
    (bool, bool),
>
    decreases calls.len(),
{
    if calls.len() == 0 {
        m
    } else {
        flags_after_call(flags_after_calls(m, calls.drop_last()), calls.last())
    }
}

/// No call on the watched-device registry unregisters a label: once
/// registered, a label stays registered through any sequence of `insert`,
/// `set_flag`, `get_flag` and `is_labeled`, so `is_labeled` keeps answering
/// `true` and `get_flag` keeps succeeding for it.
pub proof fn law_labels_stay_registered(
    m: Map<Seq<u8>, (bool, bool)>,
    calls: Seq<FlagCall>,
    k: Seq<u8>,
)
    requires
        m.contains_key(k),
    ensures
        flags_after_calls(m, calls).contains_key(k),
        m.dom().subset_of(flags_after_calls(m, calls).dom()),
    decreases calls.len(),
{
    if calls.len() > 0 {
        law_labels_stay_registered(m, calls.drop_last(), k);
        let before = flags_after_calls(m, calls.drop_last());
        assert(before.dom().subset_of(flags_after_call(before, calls.last()).dom()));
    }
}

} // verus!
