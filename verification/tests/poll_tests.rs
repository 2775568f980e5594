use dutchman::poll::{dispatch_positions, next_offset, UpdateEnvelope, UpdateKind};

fn batch(ids: &[(u32, UpdateKind)]) -> Vec<UpdateEnvelope> {
    ids.iter().map(|&(id, kind)| UpdateEnvelope { id, kind }).collect()
}

#[test]
fn offset_advances_one_past_the_last_update() {
    let b = batch(&[
        (5, UpdateKind::Message),
        (6, UpdateKind::Other),
        (7, UpdateKind::Message),
    ]);
    assert_eq!(next_offset(None, &b), Some(8));
    assert_eq!(next_offset(Some(5), &b), Some(8));
}

#[test]
fn offset_is_kept_on_an_empty_batch() {
    let b = batch(&[]);
    assert_eq!(next_offset(None, &b), None);
    assert_eq!(next_offset(Some(42), &b), Some(42));
}

#[test]
fn offset_ignores_handler_outcomes_and_update_kinds() {
    let b = batch(&[(9, UpdateKind::Other), (10, UpdateKind::Other)]);
    assert_eq!(next_offset(Some(9), &b), Some(11));
}

#[test]
fn one_dispatch_per_message_update() {
    let b = batch(&[
        (5, UpdateKind::Message),
        (6, UpdateKind::Other),
        (7, UpdateKind::Message),
        (8, UpdateKind::Message),
    ]);
    assert_eq!(dispatch_positions(&b), vec![0, 2, 3]);
}

#[test]
fn no_dispatch_without_messages() {
    let b = batch(&[(1, UpdateKind::Other), (2, UpdateKind::Other)]);
    assert_eq!(dispatch_positions(&b), Vec::<usize>::new());
}
