use soundboard::engine::{device_names, find_device_index, AudioEngine, PlayError};
use soundboard::mic::UNIT_VOLUME_BITS;
use std::cell::{Cell, RefCell};

type Engine = AudioEngine<String, (String, u32), String>;

fn open_ok(name: &String) -> Result<String, String> {
    Ok(format!("out:{name}"))
}

fn open_fails_on(bad: &'static str) -> impl Fn(&String) -> Result<String, String> {
    move |name: &String| {
        if name == bad {
            Err(format!("missing {name}"))
        } else {
            Ok(format!("out:{name}"))
        }
    }
}

fn attach_ok(_t: &String, _m: &String) -> Result<(), String> {
    Ok(())
}

fn sink_ok(t: &String, v: u32) -> Result<(String, u32), String> {
    Ok((t.clone(), v))
}

fn open_mic(n: &String) -> Result<String, String> {
    Ok(format!("cap:{n}"))
}

fn some(s: &str) -> Option<String> {
    Some(s.to_string())
}

#[test]
fn new_engine_is_empty_at_full_volume() {
    let e = Engine::new();
    assert!(e.monitor().is_none());
    assert!(e.virtual_output().is_none());
    assert!(e.mic().is_none());
    assert!(e.sinks().is_empty());
    assert_eq!(e.master_volume_bits(), UNIT_VOLUME_BITS);
    let d = Engine::default();
    assert!(d.monitor().is_none() && d.sinks().is_empty());
    assert_eq!(d.master_volume_bits(), UNIT_VOLUME_BITS);
}

#[test]
fn set_devices_opens_both_outputs() {
    let mut e = Engine::new();
    assert_eq!(e.set_devices(some("A"), some("B"), open_ok, attach_ok), Ok(()));
    assert_eq!(e.monitor().as_deref(), Some("out:A"));
    assert_eq!(e.virtual_output().as_deref(), Some("out:B"));
    assert_eq!(e.set_devices(None, None, open_ok, attach_ok), Ok(()));
    assert!(e.monitor().is_none());
    assert!(e.virtual_output().is_none());
}

#[test]
fn failing_monitor_changes_nothing() {
    let mut e = Engine::new();
    e.set_devices(some("A"), some("B"), open_ok, attach_ok).unwrap();
    let r = e.set_devices(some("X"), some("C"), open_fails_on("X"), attach_ok);
    assert_eq!(r, Err("missing X".to_string()));
    assert_eq!(e.monitor().as_deref(), Some("out:A"));
    assert_eq!(e.virtual_output().as_deref(), Some("out:B"));
}

#[test]
fn failing_virtual_keeps_new_monitor_and_old_virtual() {
    let mut e = Engine::new();
    e.set_devices(some("A"), some("B"), open_ok, attach_ok).unwrap();
    let r = e.set_devices(some("C"), some("X"), open_fails_on("X"), attach_ok);
    assert_eq!(r, Err("missing X".to_string()));
    assert_eq!(e.monitor().as_deref(), Some("out:C"));
    assert_eq!(e.virtual_output().as_deref(), Some("out:B"));
}

#[test]
fn clearing_monitor_happens_even_if_virtual_fails() {
    let mut e = Engine::new();
    e.set_devices(some("A"), some("B"), open_ok, attach_ok).unwrap();
    assert!(e.set_devices(None, some("X"), open_fails_on("X"), attach_ok).is_err());
    assert!(e.monitor().is_none());
    assert_eq!(e.virtual_output().as_deref(), Some("out:B"));
}

#[test]
fn microphone_is_routed_to_new_virtual_output() {
    let mut e = Engine::new();
    let routed = RefCell::new(Vec::new());
    e.set_mic_device(some("mic"), open_mic, attach_ok).unwrap();
    e.set_devices(None, some("V"), open_ok, |t: &String, m: &String| {
        routed.borrow_mut().push((t.clone(), m.clone()));
        Ok(())
    })
    .unwrap();
    assert_eq!(*routed.borrow(), vec![("out:V".to_string(), "cap:mic".to_string())]);
}

#[test]
fn failing_microphone_routing_keeps_old_virtual_output() {
    let mut e = Engine::new();
    e.set_devices(None, some("B"), open_ok, attach_ok).unwrap();
    e.set_mic_device(some("mic"), open_mic, attach_ok).unwrap();
    let r = e.set_devices(some("A"), some("C"), open_ok, |_t: &String, _m: &String| {
        Err("busy".to_string())
    });
    assert_eq!(r, Err("busy".to_string()));
    assert_eq!(e.monitor().as_deref(), Some("out:A"));
    assert_eq!(e.virtual_output().as_deref(), Some("out:B"));
}

#[test]
fn no_microphone_means_no_routing() {
    let mut e = Engine::new();
    let calls = Cell::new(0);
    e.set_devices(None, some("V"), open_ok, |_t: &String, _m: &String| {
        calls.set(calls.get() + 1);
        Ok(())
    })
    .unwrap();
    assert_eq!(calls.get(), 0);
}

#[test]
fn set_mic_device_opens_routes_and_clears() {
    let mut e = Engine::new();
    e.set_devices(None, some("V"), open_ok, attach_ok).unwrap();
    let routed = RefCell::new(Vec::new());
    e.set_mic_device(some("mic"), open_mic, |t: &String, m: &String| {
        routed.borrow_mut().push((t.clone(), m.clone()));
        Ok(())
    })
    .unwrap();
    assert_eq!(e.mic().as_deref(), Some("cap:mic"));
    assert_eq!(*routed.borrow(), vec![("out:V".to_string(), "cap:mic".to_string())]);
    assert_eq!(e.set_mic_device(None, |n: &String| Ok::<String, String>(n.clone()), attach_ok), Ok(()));
    assert!(e.mic().is_none());
}

#[test]
fn failing_mic_open_or_routing_keeps_previous_capture() {
    let mut e = Engine::new();
    e.set_mic_device(some("m1"), open_mic, attach_ok).unwrap();
    let r = e.set_mic_device(some("m2"), |_n: &String| Err("no device".to_string()), attach_ok);
    assert_eq!(r, Err("no device".to_string()));
    assert_eq!(e.mic().as_deref(), Some("cap:m1"));
    e.set_devices(None, some("V"), open_ok, attach_ok).unwrap();
    let r = e.set_mic_device(some("m3"), open_mic, |_t: &String, _m: &String| {
        Err("route".to_string())
    });
    assert_eq!(r, Err("route".to_string()));
    assert_eq!(e.mic().as_deref(), Some("cap:m1"));
}

#[test]
fn toggle_without_microphone_is_false_and_does_nothing() {
    let e = Engine::new();
    let calls = Cell::new(0);
    let r = e.toggle_mic_enabled(
        |_m: &String| {
            calls.set(calls.get() + 1);
            true
        },
        |_m: &String, _b: bool| calls.set(calls.get() + 1),
    );
    assert!(!r);
    assert_eq!(calls.get(), 0);
}

#[test]
fn toggle_flips_the_microphone_state() {
    let mut e = Engine::new();
    e.set_mic_device(some("m"), |n: &String| Ok::<String, String>(n.clone()), attach_ok).unwrap();
    let state = Cell::new(false);
    let get = |_m: &String| state.get();
    let set = |_m: &String, b: bool| state.set(b);
    assert!(e.toggle_mic_enabled(get, set));
    assert!(state.get());
    assert!(!e.toggle_mic_enabled(get, set));
    assert!(!state.get());
}

#[test]
fn mic_enable_and_volume_reach_the_capture() {
    let mut e = Engine::new();
    let seen = RefCell::new(Vec::new());
    e.set_mic_enabled(true, |m: &String, b: bool| seen.borrow_mut().push(format!("{m}:{b}")));
    assert!(seen.borrow().is_empty());
    e.set_mic_device(some("m"), |n: &String| Ok::<String, String>(n.clone()), attach_ok).unwrap();
    e.set_mic_enabled(true, |m: &String, b: bool| seen.borrow_mut().push(format!("{m}:{b}")));
    e.set_mic_volume(0.5f32.to_bits(), |m: &String, v: u32| {
        seen.borrow_mut().push(format!("{m}:{}", f32::from_bits(v)))
    });
    assert_eq!(*seen.borrow(), vec!["m:true".to_string(), "m:0.5".to_string()]);
}

#[test]
fn play_without_outputs_is_refused() {
    let mut e = Engine::new();
    let r = e.play_sound(sink_ok, |_s: &(String, u32)| false);
    assert!(matches!(r, Err(PlayError::NoOutputSelected)));
    assert!(e.sinks().is_empty());
}

#[test]
fn play_starts_one_queue_per_output_at_master_volume() {
    let mut e = Engine::new();
    e.set_devices(some("A"), some("B"), open_ok, attach_ok).unwrap();
    e.set_master_volume(0.5f32.to_bits(), |_s: &(String, u32), _v: u32| {});
    e.play_sound(sink_ok, |_s: &(String, u32)| false).unwrap();
    let half = 0.5f32.to_bits();
    assert_eq!(
        e.sinks().clone(),
        vec![("out:A".to_string(), half), ("out:B".to_string(), half)]
    );
}

#[test]
fn play_on_virtual_only() {
    let mut e = Engine::new();
    e.set_devices(None, some("B"), open_ok, attach_ok).unwrap();
    e.play_sound(sink_ok, |_s: &(String, u32)| false).unwrap();
    assert_eq!(e.sinks().clone(), vec![("out:B".to_string(), UNIT_VOLUME_BITS)]);
}

#[test]
fn play_drops_finished_queues_and_keeps_order() {
    let mut e = Engine::new();
    e.set_devices(some("A"), None, open_ok, attach_ok).unwrap();
    let n = Cell::new(0u32);
    let make = |t: &String, _v: u32| {
        n.set(n.get() + 1);
        Ok::<_, String>((t.clone(), n.get()))
    };
    e.play_sound(make, |_s: &(String, u32)| false).unwrap();
    e.play_sound(make, |_s: &(String, u32)| false).unwrap();
    e.play_sound(make, |_s: &(String, u32)| false).unwrap();
    e.play_sound(make, |s: &(String, u32)| s.1 == 2).unwrap();
    let ids: Vec<u32> = e.sinks().iter().map(|s| s.1).collect();
    assert_eq!(ids, vec![1, 3, 4]);
}

#[test]
fn failing_queue_creation_keeps_held_queues() {
    let mut e = Engine::new();
    e.set_devices(some("A"), some("B"), open_ok, attach_ok).unwrap();
    e.play_sound(sink_ok, |_s: &(String, u32)| false).unwrap();
    let r = e.play_sound(
        |t: &String, v: u32| if t == "out:B" { Err("sink".to_string()) } else { Ok((t.clone(), v)) },
        |_s: &(String, u32)| true,
    );
    assert!(matches!(r, Err(PlayError::Sink(ref m)) if m == "sink"));
    assert_eq!(e.sinks().len(), 2);
}

#[test]
fn master_volume_reaches_every_queue() {
    let mut e = Engine::new();
    e.set_devices(some("A"), some("B"), open_ok, attach_ok).unwrap();
    e.play_sound(sink_ok, |_s: &(String, u32)| false).unwrap();
    let seen = RefCell::new(Vec::new());
    e.set_master_volume(0.25f32.to_bits(), |s: &(String, u32), v: u32| {
        seen.borrow_mut().push((s.0.clone(), f32::from_bits(v)))
    });
    assert_eq!(e.master_volume_bits(), 0.25f32.to_bits());
    assert_eq!(*seen.borrow(), vec![("out:A".to_string(), 0.25), ("out:B".to_string(), 0.25)]);
}

#[test]
fn stop_all_stops_and_forgets_every_queue() {
    let mut e = Engine::new();
    e.set_devices(some("A"), some("B"), open_ok, attach_ok).unwrap();
    e.play_sound(sink_ok, |_s: &(String, u32)| false).unwrap();
    let stopped = RefCell::new(Vec::new());
    e.stop_all(|s: &(String, u32)| stopped.borrow_mut().push(s.0.clone()));
    assert_eq!(*stopped.borrow(), vec!["out:A".to_string(), "out:B".to_string()]);
    assert!(e.sinks().is_empty());
    assert!(e.monitor().is_some());
}

#[test]
fn device_names_skip_unreadable() {
    let names = vec![some("Speakers"), None, some("Cable Input"), None];
    assert_eq!(device_names(&names), vec!["Speakers".to_string(), "Cable Input".to_string()]);
    assert!(device_names(&vec![None, None]).is_empty());
}

#[test]
fn find_device_returns_first_match() {
    let names = vec![None, some("A"), some("B"), some("A")];
    assert_eq!(find_device_index(&names, &"A".to_string()), Some(1));
    assert_eq!(find_device_index(&names, &"B".to_string()), Some(2));
    assert_eq!(find_device_index(&names, &"C".to_string()), None);
    assert_eq!(find_device_index(&vec![], &"A".to_string()), None);
}
