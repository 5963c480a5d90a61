//! Reads and writes in pieces, the benchmark's services, and the small parts.
use rebar::assoc::Assoc;
use rebar::bench::{
    compute_answer, compute_index, fib, get_answer, put_answer, serve_compute, serve_store,
    ComputeStep, Requests, Status, Store, StoreCmd, StoreStep,
};
use rebar::bytes::{push_be, read_be};
use rebar::counter::Counter;
use rebar::io::{
    io_error, IoErrorKind, OpAnswer, OpAsk, OpState, ReadExact, ReadOutcome, Transfer, WriteAll,
    WriteOutcome,
};
use rebar::multi::{drain_step, keep_alive_step, thread_plan, thread_route, LoopStep, ThreadRoute};
use rebar::process::ProcessId;
use rebar::msgpack::{read_value, write_value};
use rebar::term::{Integer, Term};
use rebar::text::{str_before, str_eq};

#[test]
fn a_buffer_is_filled_by_pieces() {
    let mut read = ReadExact::new(vec![0; 5]);
    assert_eq!(read.needed(), 5);
    assert!(matches!(read.read(ReadOutcome::Data(b"he".to_vec())), Transfer::More));
    assert_eq!(read.needed(), 3);
    assert!(matches!(read.read(ReadOutcome::Data(b"llo".to_vec())), Transfer::Complete));
    assert_eq!(read.into_buffer(), b"hello");
}

#[test]
fn tcp_stream_read_exact() {
    let mut wire: Vec<u8> = b"hello world!!".to_vec();
    let mut texts: Vec<Vec<u8>> = Vec::new();
    for len in [5, 8] {
        let mut read = ReadExact::new(vec![0u8; len]);
        loop {
            let rest = wire.split_off(read.needed().min(3));
            let data = std::mem::replace(&mut wire, rest);
            match read.read(ReadOutcome::Data(data)) {
                Transfer::More => {}
                Transfer::Complete => break,
                Transfer::Failed(e) => panic!("failed: {:?}", e),
            }
        }
        texts.push(read.into_buffer());
    }
    assert_eq!(&texts[0], b"hello");
    assert_eq!(&texts[1], b" world!!");
}

#[test]
fn an_early_end_is_an_error() {
    let mut read = ReadExact::new(vec![0; 4]);
    read.read(ReadOutcome::Data(b"ab".to_vec()));
    match read.read(ReadOutcome::Data(Vec::new())) {
        Transfer::Failed(e) => {
            assert_eq!(e.kind, IoErrorKind::UnexpectedEof);
            assert_eq!(e.message, "unexpected EOF during read_exact");
        }
        _ => panic!("went on"),
    }
    assert_eq!(read.into_buffer(), vec![b'a', b'b', 0, 0]);
}

#[test]
fn a_buffer_is_written_by_pieces() {
    let mut write = WriteAll::new(b"hello world".to_vec());
    let mut wire = Vec::new();
    for taken in [3, 5, 3] {
        wire.extend_from_slice(&write.to_write()[..taken]);
        match write.written(WriteOutcome::Taken(taken)) {
            Transfer::More => {}
            Transfer::Complete => break,
            Transfer::Failed(e) => panic!("failed: {:?}", e),
        }
    }
    assert_eq!(wire, b"hello world");
    assert_eq!(write.into_buffer(), b"rld");
}

#[test]
fn a_write_that_takes_nothing_fails() {
    let mut write = WriteAll::new(vec![1, 2, 3]);
    match write.written(WriteOutcome::Taken(0)) {
        Transfer::Failed(e) => {
            assert_eq!(e.kind, IoErrorKind::WriteZero);
            assert_eq!(e.message, "write returned 0");
        }
        _ => panic!("went on"),
    }
    let error = io_error(std::io::Error::other("broken pipe"));
    assert!(matches!(write.written(WriteOutcome::Failed(error)), Transfer::Failed(_)));
    assert_eq!(write.to_write(), &vec![1, 2, 3]);
}

#[test]
fn system_errors_keep_their_kind_and_text() {
    let eof = std::io::Error::new(std::io::ErrorKind::UnexpectedEof, "early");
    let error = io_error(eof);
    assert_eq!(error.kind, IoErrorKind::UnexpectedEof);
    assert_eq!(error.message, "early");
    let other = io_error(std::io::Error::new(std::io::ErrorKind::NotFound, "no"));
    assert_eq!(other.kind, IoErrorKind::Other);
}

#[test]
fn an_operation_is_handed_in_once() {
    let mut op: OpState<&str, u32> = OpState::Init("read");
    assert!(matches!(op.ask(), OpAsk::Push("read")));
    assert_eq!(op.answered(OpAnswer::<u8, u32>::Pending(7)), None);
    assert!(matches!(op.ask(), OpAsk::Pop(7)));
    assert_eq!(op.answered(OpAnswer::Ready(9u8)), Some(9));
    assert!(matches!(op, OpState::Done));
}

#[test]
fn fibonacci_numbers_are_served_up_to_the_last_that_fits() {
    let first: Vec<u64> = (0..10).map(fib).collect();
    assert_eq!(first, vec![0, 1, 1, 2, 3, 5, 8, 13, 21, 34]);
    assert_eq!(fib(92), 7540113804746346429);
    assert_eq!(compute_index(92), Ok(92));
    assert_eq!(compute_index(93), Err(Status::BadRequest));
    assert_eq!(compute_index(-1), Err(Status::BadRequest));
    assert_eq!(compute_answer(Some(5)), Ok(5));
    assert_eq!(compute_answer(None).unwrap_err().code(), 500);
    assert_eq!(Status::BadRequest.code(), 400);
}

#[test]
fn the_store_gives_back_what_was_put() {
    let mut store = Store::new();
    let key = "k".to_string();
    assert_eq!(get_answer(Some(store.get(&key))).unwrap_err().code(), 404);
    assert!(store.put(key.clone(), "one".to_string()));
    assert!(!store.put(key.clone(), "two".to_string()));
    assert_eq!(get_answer(Some(store.get(&key))).unwrap(), "two");
    assert_eq!(get_answer(None), Err(Status::InternalServerError));
    assert_eq!(put_answer(true).code(), 200);
    assert_eq!(put_answer(false).code(), 500);
}

#[test]
fn every_kind_of_value_travels() {
    assert!(Term::Nil.is_nil());
    assert!(!Term::Boolean(false).is_nil());
    let value = Term::Array(vec![
        Term::Nil,
        Term::Boolean(true),
        Term::from_u64(u64::MAX),
        Term::from_i64(i64::MIN),
        Term::F32(1.5f32.to_bits()),
        Term::F64((-0.25f64).to_bits()),
        Term::from_text("gr\u{fc}n"),
        Term::Binary(vec![0, 255]),
        Term::Mapping(vec![
            (Term::from_u64(1), Term::from_text("one")),
            (Term::from_u64(2), Term::Array(vec![])),
        ]),
        Term::Ext(-3, vec![9, 9]),
    ]);
    let bytes = write_value(&value);
    assert_eq!(read_value(&bytes).unwrap(), value);
}

#[test]
fn the_bytes_are_those_of_message_pack() {
    assert_eq!(write_value(&Term::Nil), vec![0xc0]);
    assert_eq!(write_value(&Term::from_u64(300)), vec![0xcd, 0x01, 0x2c]);
    assert_eq!(write_value(&Term::from_i64(-1)), vec![0xff]);
    assert_eq!(write_value(&Term::F32(1.0f32.to_bits())), vec![0xca, 0x3f, 0x80, 0, 0]);
    assert_eq!(write_value(&Term::from_text("hi")), vec![0xa2, b'h', b'i']);
    assert_eq!(write_value(&Term::Raw(vec![0xff])), write_value(&Term::Binary(vec![0xff])));
    assert!(matches!(read_value(&[0xd0, 0x80]).unwrap(), Term::Integer(Integer::NegInt(-128))));
    assert!(matches!(read_value(&[0xa1, 0xff]).unwrap(), Term::Raw(b) if b == vec![0xff]));
    assert!(read_value(&[0xa5, b'x']).is_err());
    assert!(read_value(&[]).is_err());
}

#[test]
fn counters_count_and_start_over() {
    let mut counter = Counter::new(u64::MAX - 1);
    assert_eq!(counter.draw(), u64::MAX - 1);
    assert_eq!(counter.draw(), u64::MAX);
    assert_eq!(counter.draw(), 0);
}

#[test]
fn numbers_go_through_bytes() {
    let mut bytes = vec![7];
    push_be(&mut bytes, 0x01_02_03_04, 4);
    assert_eq!(bytes, vec![7, 1, 2, 3, 4]);
    assert_eq!(read_be(&bytes, 1, 4), 0x01_02_03_04);
}

#[test]
fn a_map_keeps_the_last_value() {
    let mut map: Assoc<u64, &str> = Assoc::new();
    assert!(map.insert(1, "a").is_none());
    assert_eq!(map.insert(1, "b"), Some("a"));
    assert_eq!(map.get(&1), Some(&"b"));
    *map.get_mut(&1).unwrap() = "c";
    assert_eq!(map.remove(&1), Some("c"));
    assert_eq!(map.len(), 0);
}

#[test]
fn texts_are_ordered_as_std_orders_them() {
    for a in ["", "a", "ab", "b", "\u{e9}", "\u{10348}"] {
        for b in ["", "a", "ab", "b", "\u{e9}", "\u{10348}"] {
            assert_eq!(str_before(a, b), a < b);
            assert_eq!(str_eq(a, b), a == b);
        }
    }
}

#[test]
fn the_thread_of_the_store_serves_requests() {
    let mut store = Store::new();
    let put = |key: &str, value: &str| {
        Requests::Next(StoreCmd::Put { key: key.to_string(), value: value.to_string() })
    };
    let get = || Requests::Next(StoreCmd::Get { key: "k".to_string() });
    assert!(matches!(serve_store(&mut store, get()), StoreStep::Found(None)));
    match serve_store(&mut store, put("k", "one")) {
        StoreStep::Stored { spawn_for } => assert_eq!(spawn_for.as_deref(), Some("k")),
        _ => panic!("not stored"),
    }
    assert!(matches!(
        serve_store(&mut store, put("k", "two")),
        StoreStep::Stored { spawn_for: None }
    ));
    match serve_store(&mut store, get()) {
        StoreStep::Found(value) => assert_eq!(value.as_deref(), Some("two")),
        _ => panic!("not found"),
    }
    assert!(matches!(serve_store(&mut store, Requests::Empty), StoreStep::Idle(_)));
    assert!(matches!(serve_store(&mut store, Requests::Disconnected), StoreStep::Stop));
}

#[test]
fn the_computing_thread_serves_requests() {
    assert!(matches!(serve_compute(Requests::Next(9)), ComputeStep::Spawn(9)));
    match serve_compute(Requests::Empty) {
        ComputeStep::Idle(d) => assert_eq!(d.as_nanos(), 100_000),
        _ => panic!("did not wait"),
    }
    assert!(matches!(serve_compute(Requests::Disconnected), ComputeStep::Stop));
}

#[test]
fn threads_are_named_and_found_by_number() {
    let plan = thread_plan(11);
    assert_eq!(plan.len(), 11);
    assert_eq!((plan[10].thread_id, plan[10].name.as_str()), (10, "rebar-10"));
    let here = ProcessId::new(1, 2, 5);
    assert_eq!(thread_route(2, 4, here), ThreadRoute::Here);
    assert_eq!(thread_route(1, 4, here), ThreadRoute::Thread(2));
    assert_eq!(thread_route(1, 2, here), ThreadRoute::Nowhere);
}

#[test]
fn threads_drain_until_the_node_shuts_down() {
    match (drain_step(false), keep_alive_step(false)) {
        (LoopStep::DrainThenWait(a), LoopStep::WaitThenDrain(b)) => {
            assert_eq!(a.as_nanos(), 100_000);
            assert_eq!(b.as_nanos(), 10_000_000);
        }
        _ => panic!("ended"),
    }
    assert!(matches!(drain_step(true), LoopStep::End));
    assert!(matches!(keep_alive_step(true), LoopStep::DrainAndEnd));
}
