use kingfisher::scanner::channel::{create_datastore_channel, datastore_channel_fits};
use kingfisher::scanner::writer::{
    spawn_datastore_writer_thread, DatastoreWriter, WriterAction, WriterEvent, BATCH_SIZE,
};

/// Lets a writer drain a list of messages and then see the channel closed; the datastore adds
/// every other message. The batches and the report come out.
fn drain(messages: usize, dedup: bool) -> (Vec<Vec<usize>>, (usize, usize)) {
    let mut writer: DatastoreWriter<usize> = spawn_datastore_writer_thread(dedup);
    let mut batches = Vec::new();
    let mut next = 0;
    let mut action = WriterAction::Receive;
    loop {
        action = match action {
            WriterAction::Receive | WriterAction::Sleep(_) => {
                let event = if next < messages {
                    next += 1;
                    WriterEvent::Message(next - 1)
                } else {
                    WriterEvent::Disconnected
                };
                writer.step(event)
            }
            WriterAction::Record(batch, flag) => {
                assert_eq!(flag, dedup);
                let added = batch.len() / 2;
                batches.push(batch);
                writer.step(WriterEvent::Recorded(added))
            }
            WriterAction::Finish => return (batches, writer.report(99)),
        };
    }
}

#[test]
fn channel_has_room_for_every_job() {
    let (sender, receiver) = create_datastore_channel::<u64>(4);
    assert_eq!(sender.capacity(), Some(16_384));
    assert_eq!(receiver.capacity(), Some(16_384));
    let (sender, receiver) = create_datastore_channel::<u64>(20);
    assert_eq!(sender.capacity(), Some(20_480));
    assert_eq!(receiver.capacity(), Some(20_480));
    let (sender, _receiver) = create_datastore_channel::<u64>(0);
    assert_eq!(sender.capacity(), Some(16_384));
}

#[test]
fn channel_sizes_for_numbers_of_jobs() {
    for (num_jobs, room) in [(0, 16_384), (2, 16_384), (16, 16_384), (17, 17_408)] {
        let (sender, receiver) = create_datastore_channel::<u64>(num_jobs);
        assert_eq!(sender.capacity(), Some(room));
        assert_eq!(receiver.capacity(), Some(room));
        assert!(sender.is_empty() && receiver.is_empty());
    }
}

#[test]
fn channel_carries_messages() {
    let (sender, receiver) = create_datastore_channel::<String>(1);
    sender.send("finding".to_string()).unwrap();
    assert_eq!(receiver.recv().unwrap(), "finding");
}

#[test]
fn channel_must_fit_in_memory() {
    assert!(datastore_channel_fits::<u64>(4));
    assert!(datastore_channel_fits::<[u8; 500]>(1000));
    assert!(!datastore_channel_fits::<u64>(usize::MAX));
    assert!(!datastore_channel_fits::<[u8; 500]>(usize::MAX / 1024));
}

#[test]
fn writer_hands_everything_over() {
    for messages in [0, 1, BATCH_SIZE - 1, BATCH_SIZE, BATCH_SIZE + 1, 2 * BATCH_SIZE + 7] {
        let (batches, _) = drain(messages, true);
        let laid: Vec<usize> = batches.iter().flatten().copied().collect();
        assert_eq!(laid, (0..messages).collect::<Vec<usize>>());
        assert!(batches.iter().all(|b| !b.is_empty() && b.len() <= BATCH_SIZE));
    }
}

#[test]
fn writer_fills_its_batches() {
    let (batches, report) = drain(2 * BATCH_SIZE + 7, false);
    let sizes: Vec<usize> = batches.iter().map(|b| b.len()).collect();
    assert_eq!(sizes, vec![32_768, 32_768, 7]);
    assert_eq!(report, (99, 16_384 + 16_384 + 3));
}

#[test]
fn writer_without_messages_records_nothing() {
    let (batches, report) = drain(0, false);
    assert!(batches.is_empty());
    assert_eq!(report, (99, 0));
}

#[test]
fn writer_waits_before_it_records_a_part() {
    let mut writer: DatastoreWriter<u8> = spawn_datastore_writer_thread(true);
    assert!(matches!(writer.step(WriterEvent::Empty(9_999)), WriterAction::Sleep(1)));
    assert!(matches!(writer.step(WriterEvent::Message(5)), WriterAction::Receive));
    assert!(matches!(writer.step(WriterEvent::Empty(1_999)), WriterAction::Sleep(1)));
    match writer.step(WriterEvent::Empty(2_000)) {
        WriterAction::Record(batch, dedup) => {
            assert_eq!(batch, vec![5]);
            assert!(dedup);
        }
        _ => panic!("a batch that is due was not handed over"),
    }
    assert!(matches!(writer.step(WriterEvent::Recorded(1)), WriterAction::Receive));
    assert!(matches!(writer.step(WriterEvent::Empty(2_000)), WriterAction::Sleep(1)));
    assert!(matches!(writer.step(WriterEvent::Disconnected), WriterAction::Finish));
    assert_eq!(writer.report(1), (1, 1));
}
