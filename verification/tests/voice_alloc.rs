use generic_daw_core::voice_alloc::VoiceAlloc;

#[test]
fn allocate_until_full() {
    let mut alloc: VoiceAlloc<u8, u8> = VoiceAlloc::new(2);
    let a = alloc.allocate(1, 10).unwrap();
    let b = alloc.allocate(2, 20).unwrap();
    assert_eq!((a.id, a.note_id, a.active, a.info), (1, 0, true, 10));
    assert_eq!((b.id, b.note_id, b.active, b.info), (2, 1, true, 20));
    assert!(alloc.allocate(3, 30).is_none());
    assert_eq!(alloc.current_polyphony(), 2);
}

#[test]
fn drain_takes_only_inactive_voices_in_order() {
    let mut alloc: VoiceAlloc<u8, u8> = VoiceAlloc::new(4);
    for id in 1..=4 {
        alloc.allocate(id, id * 10).unwrap();
    }
    alloc.deactivate_all();
    assert!(alloc.activate(2));
    assert!(alloc.activate(4));
    assert!(!alloc.activate(9));
    let drained: Vec<u8> = alloc.drain_inactive().iter().map(|v| v.id).collect();
    assert_eq!(drained, vec![1, 3]);
    assert_eq!(alloc.current_polyphony(), 2);
    let again: Vec<u8> = alloc.drain_inactive().iter().map(|v| v.id).collect();
    assert!(again.is_empty());
}

#[test]
fn dealloc_moves_last_voice_into_the_gap() {
    let mut alloc: VoiceAlloc<u8, u8> = VoiceAlloc::new(3);
    alloc.allocate(1, 0).unwrap();
    alloc.allocate(2, 0).unwrap();
    alloc.allocate(3, 0).unwrap();
    let gone = alloc.dealloc(1).unwrap();
    assert_eq!(gone.id, 1);
    assert!(alloc.dealloc(1).is_none());
    alloc.deactivate_all();
    let order: Vec<u8> = alloc.drain_inactive().iter().map(|v| v.id).collect();
    assert_eq!(order, vec![3, 2]);
}

#[test]
fn steal_replaces_the_first_smallest_voice() {
    let mut alloc: VoiceAlloc<u8, u8> = VoiceAlloc::new(3);
    alloc.allocate(1, 50).unwrap();
    alloc.allocate(2, 10).unwrap();
    alloc.allocate(3, 10).unwrap();
    let (new, old) = alloc.steal(4, 70, |a, b| a.info.cmp(&b.info));
    assert_eq!((new.id, new.note_id, new.info), (4, 3, 70));
    assert_eq!(old.id, 2);
    assert_eq!(alloc.current_polyphony(), 3);
    alloc.deactivate_all();
    let order: Vec<u8> = alloc.drain_inactive().iter().map(|v| v.id).collect();
    assert_eq!(order, vec![1, 4, 3]);
}

#[test]
fn note_ids_keep_counting_after_dealloc() {
    let mut alloc: VoiceAlloc<u8, u8> = VoiceAlloc::new(1);
    assert_eq!(alloc.allocate(1, 0).unwrap().note_id, 0);
    alloc.dealloc(1).unwrap();
    assert_eq!(alloc.allocate(1, 0).unwrap().note_id, 1);
}

#[test]
fn steal_takes_the_first_lowest_even_after_a_larger_one() {
    let mut alloc: VoiceAlloc<u8, u8> = VoiceAlloc::new(3);
    alloc.allocate(1, 1).unwrap();
    alloc.allocate(2, 2).unwrap();
    alloc.allocate(3, 1).unwrap();
    let (_, old) = alloc.steal(9, 0, |a, b| a.info.cmp(&b.info));
    assert_eq!(old.id, 1);
}

#[test]
fn steal_from_a_single_voice() {
    let mut alloc: VoiceAlloc<u8, u8> = VoiceAlloc::new(1);
    alloc.allocate(1, 5).unwrap();
    let (new, old) = alloc.steal(2, 6, |a, b| a.info.cmp(&b.info));
    assert_eq!((new.id, old.id), (2, 1));
}
