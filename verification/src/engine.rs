use crate::mic::UNIT_VOLUME_BITS;
use vstd::prelude::*;

verus! {

/// The names of the devices whose name could be read, in order.
pub open spec fn readable_names(names: Seq<Option<String>>) -> Seq<String>
    decreases names.len(),
{
    if names.len() == 0 {
        Seq::empty()
    } else {
        let rest = readable_names(names.drop_last());
        match names.last() {
            Some(n) => rest.push(n),
            None => rest,
        }
    }
}

/// The devices offered are exactly the ones whose name could be read, in
/// order: the list keeps every `Some` name and drops every `None`, so a list
/// where every name could be read is offered whole.
pub proof fn readable_names_are_all_some_names(names: Seq<Option<String>>)
    ensures
        readable_names(names) == names.filter_map(|o: Option<String>| o),
        (forall|i: int| 0 <= i < names.len() ==> (#[trigger] names[i]) is Some) ==> {
            &&& readable_names(names).len() == names.len()
            &&& forall|i: int|
                0 <= i < names.len() ==> Some(#[trigger] readable_names(names)[i]) == names[i]
        },
    decreases names.len(),
{
    if names.len() > 0 {
        let init = names.drop_last();
        readable_names_are_all_some_names(init);
        match names.last() {
            Some(n) => {
                assert(readable_names(init).push(n) =~= readable_names(init) + seq![n]);
            },
            None => {},
        }
        if forall|i: int| 0 <= i < names.len() ==> (#[trigger] names[i]) is Some {
            assert forall|i: int| 0 <= i < init.len() implies (#[trigger] init[i]) is Some by {
                assert(init[i] == names[i]);
            }
            assert forall|i: int|
                0 <= i < names.len() implies Some(#[trigger] readable_names(names)[i]) == names[i] by {
                if i < names.len() - 1 {
                    assert(init[i] == names[i]);
                    assert(Some(readable_names(init)[i]) == init[i]);
                }
            }
        }
    }
}

/// The names to offer for a list of devices, given the name of each device
/// (`None` where it could not be read): the readable ones, in order.
pub fn device_names(names: &Vec<Option<String>>) -> (r: Vec<String>)
    ensures
        r@ == readable_names(names@),
{
    let mut out: Vec<String> = Vec::new();
    let n: usize = names.len();
    let mut i: usize = 0;
    while i < n
        invariant
            n == names@.len(),
            i <= n,
            out@ == readable_names(names@.take(i as int)),
        decreases n - i,
    {
        assert(names@.take(i + 1).drop_last() =~= names@.take(i as int));
        match &names[i] {
            Some(name) => out.push(name.clone()),
            None => {},
        }
        i = i + 1;
    }
    assert(names@.take(n as int) =~= names@);
    out
}

/// The device at `i` is named `name`.
pub open spec fn named(names: Seq<Option<String>>, i: int, name: Seq<char>) -> bool {
    names[i] matches Some(n) && n@ == name
}

/// Where the first device named `name` stands in a list of devices, given the
/// name of each (`None` where it could not be read).
pub fn find_device_index(names: &Vec<Option<String>>, name: &String) -> (r: Option<usize>)
    ensures
        r matches Some(i) ==> i < names@.len() && named(names@, i as int, name@) && forall|j: int|
            0 <= j < i ==> !named(names@, j, name@),
        r is None ==> forall|j: int| 0 <= j < names@.len() ==> !named(names@, j, name@),
{
    let n: usize = names.len();
    let mut i: usize = 0;
    while i < n
        invariant
            n == names@.len(),
            i <= n,
            forall|j: int| 0 <= j < i ==> !named(names@, j, name@),
        decreases n - i,
    {
        match &names[i] {
            Some(candidate) => {
                if *candidate == *name {
                    return Some(i);
                }
            },
            None => {},
        }
        i = i + 1;
    }
    None
}

/// What an `AudioEngine` holds, as its contracts speak of it.
pub struct EngineView<T, S, M> {
    /// The output used to monitor sounds locally.
    pub monitor: Option<T>,
    /// The output that feeds the virtual device (sounds and the microphone).
    pub virtual_out: Option<T>,
    /// Playback queues started by `play_sound` and not yet cleared.
    pub sinks: Seq<S>,
    /// The microphone capture, when one is set.
    pub mic: Option<M>,
    /// The master volume, as the bits of an `f32`.
    pub master_volume_bits: u32,
}

/// Routes sounds to a monitor output and a virtual output, and the microphone
/// to the virtual output. `T` is an opened output, `S` a playback queue on one,
/// `M` a running microphone capture; the work on them (opening devices,
/// creating queues, routing the microphone) is handed in as functions, and the
/// engine decides what is kept, replaced or reported.
pub struct AudioEngine<T, S, M> {
    monitor: Option<T>,
    virtual_out: Option<T>,
    sinks: Vec<S>,
    mic: Option<M>,
    master_volume_bits: u32,
}

/// Why `play_sound` failed.
#[derive(Debug)]
pub enum PlayError<E> {
    /// Creating a playback queue on an output failed.
    Sink(E),
    /// Neither a monitor nor a virtual output is selected.
    NoOutputSelected,
}

impl<T, S, M> View for AudioEngine<T, S, M> {
    type V = EngineView<T, S, M>;

    closed spec fn view(&self) -> EngineView<T, S, M> {
        EngineView {
            monitor: self.monitor,
            virtual_out: self.virtual_out,
            sinks: self.sinks@,
            mic: self.mic,
            master_volume_bits: self.master_volume_bits,
        }
    }
}

/// The selected outputs, monitor first.
pub open spec fn outputs<T, S, M>(v: EngineView<T, S, M>) -> Seq<T> {
    let m = match v.monitor {
        Some(t) => seq![t],
        None => Seq::empty(),
    };
    match v.virtual_out {
        Some(t) => m.push(t),
        None => m,
    }
}

/// `slot` holds what opening the requested device gave: nothing when no
/// device was requested, else a target that `open` returns for that name.
pub open spec fn opened_as<T, E, F: Fn(&String) -> Result<T, E>>(
    open: F,
    request: Option<String>,
    slot: Option<T>,
) -> bool {
    match request {
        None => slot is None,
        Some(name) => match slot {
            Some(t) => call_ensures(open, (&name,), Ok::<T, E>(t)),
            None => false,
        },
    }
}

/// The queues of `sinks` whose `finished` flag is false, in order.
pub open spec fn unfinished<S>(sinks: Seq<S>, finished: Seq<bool>) -> Seq<S>
    decreases sinks.len(),
{
    if sinks.len() == 0 {
        Seq::empty()
    } else {
        let rest = unfinished(sinks.drop_last(), finished.drop_last());
        if finished.last() {
            rest
        } else {
            rest.push(sinks.last())
        }
    }
}

/// `after` is what `play_sound` leaves of `before`'s queues: `fresh` holds one
/// new queue per selected output (monitor first), made by `make_sink` at the
/// master volume; of the queues held before, those for which `is_finished`
/// answered `finished[i] == true` are dropped and the others kept in order,
/// followed by `fresh`.
pub open spec fn played<T, S, M, E, F, G>(
    before: EngineView<T, S, M>,
    after: Seq<S>,
    make_sink: F,
    is_finished: G,
    fresh: Seq<S>,
    finished: Seq<bool>,
) -> bool where F: Fn(&T, u32) -> Result<S, E>, G: Fn(&S) -> bool {
    &&& fresh.len() == outputs(before).len()
    &&& forall|i: int|
        #![trigger fresh[i]]
        0 <= i < fresh.len() ==> call_ensures(
            make_sink,
            (&outputs(before)[i], before.master_volume_bits),
            Ok::<S, E>(fresh[i]),
        )
    &&& finished.len() == before.sinks.len()
    &&& forall|i: int|
        #![trigger finished[i]]
        0 <= i < finished.len() ==> call_ensures(
            is_finished,
            (&before.sinks[i],),
            finished[i],
        )
    &&& after == unfinished(before.sinks, finished) + fresh
}

/// Dropping finished queues never adds any: what is kept is no longer than
/// what was held; when none has finished all are kept, and when all have
/// finished none is.
pub proof fn unfinished_only_drops<S>(sinks: Seq<S>, finished: Seq<bool>)
    requires
        finished.len() == sinks.len(),
    ensures
        unfinished(sinks, finished).len() <= sinks.len(),
        (forall|i: int| 0 <= i < finished.len() ==> !#[trigger] finished[i]) ==> unfinished(
            sinks,
            finished,
        ) == sinks,
        (forall|i: int| 0 <= i < finished.len() ==> #[trigger] finished[i]) ==> unfinished(
            sinks,
            finished,
        ).len() == 0,
    decreases sinks.len(),
{
    if sinks.len() > 0 {
        unfinished_only_drops(sinks.drop_last(), finished.drop_last());
        assert(sinks.drop_last().push(sinks.last()) =~= sinks);
        if forall|i: int| 0 <= i < finished.len() ==> !#[trigger] finished[i] {
            assert(!finished[finished.len() - 1]);
            assert forall|i: int| 0 <= i < finished.drop_last().len() implies !#[trigger] finished.drop_last()[i] by {
                assert(finished.drop_last()[i] == finished[i]);
            }
        }
        if forall|i: int| 0 <= i < finished.len() ==> #[trigger] finished[i] {
            assert(finished[finished.len() - 1]);
            assert forall|i: int| 0 <= i < finished.drop_last().len() implies #[trigger] finished.drop_last()[i] by {
                assert(finished.drop_last()[i] == finished[i]);
            }
        }
    }
}

/// The queues kept are exactly those not reported finished, in their order:
/// pairing each queue with its flag and keeping the queues of the pairs whose
/// flag is false.
pub proof fn unfinished_keeps_exactly_the_unfinished<S>(sinks: Seq<S>, finished: Seq<bool>)
    requires
        finished.len() == sinks.len(),
    ensures
        unfinished(sinks, finished) == Seq::new(sinks.len(), |i: int| (sinks[i], finished[i])).filter_map(
            |p: (S, bool)| if p.1 { None } else { Some(p.0) },
        ),
        forall|i: int|
            0 <= i < sinks.len() && !finished[i] ==> unfinished(sinks, finished).contains(
                #[trigger] sinks[i],
            ),
    decreases sinks.len(),
{
    let pairs = Seq::new(sinks.len(), |i: int| (sinks[i], finished[i]));
    if sinks.len() > 0 {
        let si = sinks.drop_last();
        let fi = finished.drop_last();
        unfinished_keeps_exactly_the_unfinished(si, fi);
        let init_pairs = Seq::new(si.len(), |i: int| (si[i], fi[i]));
        assert(pairs.drop_last() =~= init_pairs);
        assert(pairs.last() == (sinks.last(), finished.last()));
        if !finished.last() {
            assert(unfinished(si, fi).push(sinks.last()) =~= unfinished(si, fi) + seq![sinks.last()]);
        }
        assert forall|i: int|
            0 <= i < sinks.len() && !finished[i] implies unfinished(sinks, finished).contains(
                #[trigger] sinks[i],
            ) by {
            if i < sinks.len() - 1 {
                assert(si[i] == sinks[i]);
                assert(fi[i] == finished[i]);
                assert(unfinished(si, fi).contains(si[i]));
                let k: int = choose|k: int| 0 <= k < unfinished(si, fi).len() && unfinished(si, fi)[k] == si[i];
                if !finished.last() {
                    assert(unfinished(sinks, finished)[k] == sinks[i]);
                }
            } else {
                assert(unfinished(sinks, finished)[unfinished(si, fi).len() as int] == sinks[i]);
            }
        }
    }
}

impl<T, S, M> AudioEngine<T, S, M> {
    /// An engine with no outputs, no microphone, no queues and full volume.
    pub fn new() -> (e: Self)
        ensures
            e@.monitor is None,
            e@.virtual_out is None,
            e@.sinks.len() == 0,
            e@.mic is None,
            e@.master_volume_bits == UNIT_VOLUME_BITS,
    {
        AudioEngine {
            monitor: None,
            virtual_out: None,
            sinks: Vec::new(),
            mic: None,
            master_volume_bits: UNIT_VOLUME_BITS,
        }
    }

    /// The monitor output, if one is selected.
    pub fn monitor(&self) -> (r: &Option<T>)
        ensures
            *r == self@.monitor,
    {
        &self.monitor
    }

    /// The virtual output, if one is selected.
    pub fn virtual_output(&self) -> (r: &Option<T>)
        ensures
            *r == self@.virtual_out,
    {
        &self.virtual_out
    }

    /// The microphone capture, if one is set.
    pub fn mic(&self) -> (r: &Option<M>)
        ensures
            *r == self@.mic,
    {
        &self.mic
    }

    /// The playback queues currently held.
    pub fn sinks(&self) -> (r: &Vec<S>)
        ensures
            r@ == self@.sinks,
    {
        &self.sinks
    }

    /// The master volume, as the bits of an `f32`.
    pub fn master_volume_bits(&self) -> (r: u32)
        ensures
            r == self@.master_volume_bits,
    {
        self.master_volume_bits
    }

    /// Routes the current microphone capture, if there is one, to `target`.
    fn attach_mic<E, A>(&self, target: &T, attach: A) -> (r: Result<(), E>)
        where
            A: Fn(&T, &M) -> Result<(), E>,
        requires
            forall|t: &T, m: &M| attach.requires((t, m)),
        ensures
            self@.mic is None ==> r is Ok,
            self@.mic matches Some(m) ==> call_ensures(attach, (target, &m), r),
    {
        match &self.mic {
            Some(m) => attach(target, m),
            None => Ok(()),
        }
    }

    /// Selects the monitor and virtual outputs, opening each named device with
    /// `open_output` and routing the microphone to the new virtual output with
    /// `attach`. The monitor is replaced first; if opening it fails nothing
    /// changes. The virtual output is replaced only once it is open and the
    /// microphone, if any, is routed to it.
    pub fn set_devices<E, F, A>(
        &mut self,
        monitor: Option<String>,
        virtual_out: Option<String>,
        open_output: F,
        attach: A,
    ) -> (r: Result<(), E>)
        where
            F: Fn(&String) -> Result<T, E>,
            A: Fn(&T, &M) -> Result<(), E>,
        requires
            forall|name: &String| open_output.requires((name,)),
            forall|t: &T, m: &M| attach.requires((t, m)),
        ensures
            final(self)@.sinks == old(self)@.sinks,
            final(self)@.mic == old(self)@.mic,
            final(self)@.master_volume_bits == old(self)@.master_volume_bits,
            r is Ok ==> {
                &&& opened_as(open_output, monitor, final(self)@.monitor)
                &&& opened_as(open_output, virtual_out, final(self)@.virtual_out)
                &&& final(self)@.virtual_out matches Some(t) ==> (old(self)@.mic matches Some(m)
                    ==> call_ensures(attach, (&t, &m), Ok::<(), E>(())))
            },
            r matches Err(e) ==> final(self)@.virtual_out == old(self)@.virtual_out && {
                // opening the monitor failed
                ||| {
                    &&& monitor matches Some(n)
                    &&& call_ensures(open_output, (&n,), Err::<T, E>(e))
                    &&& final(self)@.monitor == old(self)@.monitor
                }
                // the monitor is set; opening the virtual output failed
                ||| {
                    &&& opened_as(open_output, monitor, final(self)@.monitor)
                    &&& virtual_out matches Some(n)
                    &&& call_ensures(open_output, (&n,), Err::<T, E>(e))
                }
                // the monitor is set; the virtual output opened; routing the microphone failed
                ||| {
                    &&& opened_as(open_output, monitor, final(self)@.monitor)
                    &&& virtual_out matches Some(n)
                    &&& old(self)@.mic matches Some(m)
                    &&& exists|t: T|
                        call_ensures(open_output, (&n,), Ok::<T, E>(t))
                        && #[trigger] call_ensures(attach, (&t, &m), Err::<(), E>(e))
                }
            },
    {
        let new_monitor = match &monitor {
            Some(name) => match open_output(name) {
                Ok(t) => Some(t),
                Err(e) => return Err(e),
            },
            None => None,
        };
        self.monitor = new_monitor;
        let new_virtual = match &virtual_out {
            Some(name) => match open_output(name) {
                Ok(t) => Some(t),
                Err(e) => return Err(e),
            },
            None => None,
        };
        if let Some(target) = &new_virtual {
            let res = self.attach_mic(target, attach);
            match res {
                Ok(_unit) => {
                    assert(res == Ok::<(), E>(()));
                },
                Err(e) => return Err(e),
            }
        }
        self.virtual_out = new_virtual;
        Ok(())
    }

    /// Selects the microphone: with no name the capture is dropped; with a
    /// name the device is opened with `open_mic`, routed to the virtual
    /// output (if one is selected) with `attach`, and only then kept. On any
    /// failure the previous capture stays.
    pub fn set_mic_device<E, F, A>(&mut self, name: Option<String>, open_mic: F, attach: A) -> (r:
        Result<(), E>)
        where
            F: Fn(&String) -> Result<M, E>,
            A: Fn(&T, &M) -> Result<(), E>,
        requires
            forall|n: &String| open_mic.requires((n,)),
            forall|t: &T, m: &M| attach.requires((t, m)),
        ensures
            final(self)@.monitor == old(self)@.monitor,
            final(self)@.virtual_out == old(self)@.virtual_out,
            final(self)@.sinks == old(self)@.sinks,
            final(self)@.master_volume_bits == old(self)@.master_volume_bits,
            name is None ==> r is Ok && final(self)@.mic is None,
            name matches Some(n) ==> (r is Ok ==> {
                &&& final(self)@.mic matches Some(m)
                &&& call_ensures(open_mic, (&n,), Ok::<M, E>(m))
                &&& old(self)@.virtual_out matches Some(t) ==> call_ensures(
                    attach,
                    (&t, &m),
                    Ok::<(), E>(()),
                )
            }),
            name matches Some(n) ==> (r matches Err(e) ==> {
                &&& final(self)@.mic == old(self)@.mic
                &&& {
                    ||| call_ensures(open_mic, (&n,), Err::<M, E>(e))
                    ||| exists|m: M|
                        #![trigger call_ensures(open_mic, (&n,), Ok::<M, E>(m))]
                        call_ensures(open_mic, (&n,), Ok::<M, E>(m)) && (old(
                            self,
                        )@.virtual_out matches Some(t) && call_ensures(
                            attach,
                            (&t, &m),
                            Err::<(), E>(e),
                        ))
                }
            }),
    {
        match &name {
            None => {
                self.mic = None;
                Ok(())
            },
            Some(n) => {
                let capture = match open_mic(n) {
                    Ok(m) => m,
                    Err(e) => return Err(e),
                };
                if let Some(target) = &self.virtual_out {
                    let res = attach(target, &capture);
                    match res {
                        Ok(_unit) => {
                            assert(res == Ok::<(), E>(()));
                        },
                        Err(e) => return Err(e),
                    }
                }
                self.mic = Some(capture);
                Ok(())
            },
        }
    }

    /// Turns the microphone on or off through `set_enabled`, when one is set.
    pub fn set_mic_enabled<F>(&self, enabled: bool, set_enabled: F)
        where
            F: Fn(&M, bool),
        requires
            forall|m: &M, b: bool| set_enabled.requires((m, b)),
        ensures
            self@.mic matches Some(m) ==> call_ensures(set_enabled, (&m, enabled), ()),
    {
        if let Some(m) = &self.mic {
            set_enabled(m, enabled);
        }
    }

    /// Flips the microphone's enabled state and returns the new one. With no
    /// microphone set, nothing happens and the answer is `false`.
    pub fn toggle_mic_enabled<G, F>(&self, is_enabled: G, set_enabled: F) -> (r: bool)
        where
            G: Fn(&M) -> bool,
            F: Fn(&M, bool),
        requires
            forall|m: &M| is_enabled.requires((m,)),
            forall|m: &M, b: bool| set_enabled.requires((m, b)),
        ensures
            self@.mic is None ==> !r,
            self@.mic matches Some(m) ==> call_ensures(is_enabled, (&m,), !r) && call_ensures(
                set_enabled,
                (&m, r),
                (),
            ),
    {
        match &self.mic {
            Some(m) => {
                let new_state = !is_enabled(m);
                set_enabled(m, new_state);
                new_state
            },
            None => false,
        }
    }

    /// Sets the microphone volume (the bits of an `f32`) through `set_volume`,
    /// when a microphone is set.
    pub fn set_mic_volume<F>(&self, volume_bits: u32, set_volume: F)
        where
            F: Fn(&M, u32),
        requires
            forall|m: &M, v: u32| set_volume.requires((m, v)),
        ensures
            self@.mic matches Some(m) ==> call_ensures(set_volume, (&m, volume_bits), ()),
    {
        if let Some(m) = &self.mic {
            set_volume(m, volume_bits);
        }
    }

    /// Sets the master volume (the bits of an `f32`) and applies it to every
    /// playback queue through `set_volume`.
    pub fn set_master_volume<F>(&mut self, volume_bits: u32, set_volume: F)
        where
            F: Fn(&S, u32),
        requires
            forall|s: &S, v: u32| set_volume.requires((s, v)),
        ensures
            final(self)@.master_volume_bits == volume_bits,
            final(self)@.monitor == old(self)@.monitor,
            final(self)@.virtual_out == old(self)@.virtual_out,
            final(self)@.sinks == old(self)@.sinks,
            final(self)@.mic == old(self)@.mic,
            forall|i: int|
                0 <= i < old(self)@.sinks.len() ==> #[trigger] call_ensures(
                    set_volume,
                    (&old(self)@.sinks[i], volume_bits),
                    (),
                ),
    {
        self.master_volume_bits = volume_bits;
        let n: usize = self.sinks.len();
        let mut i: usize = 0;
        while i < n
            invariant
                n == self.sinks@.len(),
                i <= n,
                forall|s: &S, v: u32| set_volume.requires((s, v)),
                forall|j: int|
                    0 <= j < i ==> #[trigger] call_ensures(
                        set_volume,
                        (&self.sinks@[j], volume_bits),
                        (),
                    ),
            decreases n - i,
        {
            set_volume(&self.sinks[i], volume_bits);
            i = i + 1;
        }
    }

    /// Starts a sound on every selected output: `make_sink` creates a playback
    /// queue on each (monitor first) at the master volume, with the sound
    /// queued. Queues that `is_finished` reports as done are then dropped and
    /// the new ones kept. If creating a queue fails, or no output is selected,
    /// the held queues are left as they were.
    pub fn play_sound<E, F, G>(&mut self, make_sink: F, is_finished: G) -> (r: Result<
        (),
        PlayError<E>,
    >)
        where
            F: Fn(&T, u32) -> Result<S, E>,
            G: Fn(&S) -> bool,
        requires
            forall|t: &T, v: u32| make_sink.requires((t, v)),
            forall|s: &S| is_finished.requires((s,)),
        ensures
            final(self)@.monitor == old(self)@.monitor,
            final(self)@.virtual_out == old(self)@.virtual_out,
            final(self)@.mic == old(self)@.mic,
            final(self)@.master_volume_bits == old(self)@.master_volume_bits,
            (r matches Err(PlayError::NoOutputSelected)) <==> outputs(old(self)@).len() == 0,
            r is Err ==> final(self)@.sinks == old(self)@.sinks,
            r matches Err(PlayError::Sink(e)) ==> exists|i: int|
                #![trigger outputs(old(self)@)[i]]
                0 <= i < outputs(old(self)@).len() && call_ensures(
                    make_sink,
                    (&outputs(old(self)@)[i], old(self)@.master_volume_bits),
                    Err::<S, E>(e),
                ),
            r is Ok ==> exists|fresh: Seq<S>, finished: Seq<bool>|
                #[trigger] played(
                    old(self)@,
                    final(self)@.sinks,
                    make_sink,
                    is_finished,
                    fresh,
                    finished,
                ),
    {
        let ghost before = self@;
        let volume: u32 = self.master_volume_bits;
        let mut fresh: Vec<S> = Vec::new();
        if let Some(t) = &self.monitor {
            match make_sink(t, volume) {
                Ok(s) => fresh.push(s),
                Err(e) => {
                    assert(outputs(before)[0] == *t && 0 < outputs(before).len());
                    return Err(PlayError::Sink(e));
                },
            }
        }
        if let Some(t) = &self.virtual_out {
            match make_sink(t, volume) {
                Ok(s) => fresh.push(s),
                Err(e) => {
                    assert(outputs(before)[outputs(before).len() - 1] == *t && 0 < outputs(before).len());
                    return Err(PlayError::Sink(e));
                },
            }
        }
        assert forall|i: int| 0 <= i < fresh@.len() implies #[trigger] call_ensures(
            make_sink,
            (&outputs(before)[i], before.master_volume_bits),
            Ok::<S, E>(fresh@[i]),
        ) by {
            if before.monitor is Some && i == 1 {
                assert(outputs(before)[1] == before.virtual_out->0);
            }
        }
        if fresh.len() == 0 {
            return Err(PlayError::NoOutputSelected);
        }
        let mut held: Vec<S> = Vec::new();
        std::mem::swap(&mut held, &mut self.sinks);
        let ghost orig = held@;
        let ghost mut finished: Seq<bool> = Seq::empty();
        let ghost mut i: int = 0;
        let mut kept: Vec<S> = Vec::new();
        while held.len() > 0
            invariant
                orig == before.sinks,
                0 <= i <= orig.len(),
                held@ == orig.skip(i),
                finished.len() == i,
                kept@ == unfinished(orig.take(i), finished),
                forall|s: &S| is_finished.requires((s,)),
                forall|j: int|
                    0 <= j < i ==> #[trigger] call_ensures(is_finished, (&orig[j],), finished[j]),
            decreases held@.len(),
        {
            let s = held.remove(0);
            let done = is_finished(&s);
            proof {
                assert(orig.take(i + 1).drop_last() =~= orig.take(i));
                assert(finished.push(done).drop_last() =~= finished);
                finished = finished.push(done);
                i = i + 1;
                assert(held@ =~= orig.skip(i));
            }
            if !done {
                kept.push(s);
            }
        }
        proof {
            assert(orig.take(i) =~= orig);
        }
        let ghost fresh_seq = fresh@;
        kept.append(&mut fresh);
        self.sinks = kept;
        assert(played(before, self@.sinks, make_sink, is_finished, fresh_seq, finished));
        Ok(())
    }

    /// Stops every playback queue through `stop` and forgets them all.
    pub fn stop_all<F>(&mut self, stop: F)
        where
            F: Fn(&S),
        requires
            forall|s: &S| stop.requires((s,)),
        ensures
            final(self)@.sinks.len() == 0,
            final(self)@.monitor == old(self)@.monitor,
            final(self)@.virtual_out == old(self)@.virtual_out,
            final(self)@.mic == old(self)@.mic,
            final(self)@.master_volume_bits == old(self)@.master_volume_bits,
            forall|i: int|
                0 <= i < old(self)@.sinks.len() ==> #[trigger] call_ensures(
                    stop,
                    (&old(self)@.sinks[i],),
                    (),
                ),
    {
        let n: usize = self.sinks.len();
        let mut i: usize = 0;
        while i < n
            invariant
                n == self.sinks@.len(),
                i <= n,
                forall|s: &S| stop.requires((s,)),
                forall|j: int| 0 <= j < i ==> #[trigger] call_ensures(stop, (&self.sinks@[j],), ()),
            decreases n - i,
        {
            stop(&self.sinks[i]);
            i = i + 1;
        }
        self.sinks.clear();
    }
}

impl<T, S, M> Default for AudioEngine<T, S, M> {
    /// The same as `AudioEngine::new`.
    fn default() -> (e: Self)
        ensures
            e@.monitor is None,
            e@.virtual_out is None,
            e@.sinks.len() == 0,
            e@.mic is None,
            e@.master_volume_bits == UNIT_VOLUME_BITS,
    {
        Self::new()
    }
}

} // verus!
