//! Routing messages between nodes.
use crate::cluster::protocol::{Frame, FrameView, MsgType};
use crate::process::table::ProcessTable;
use crate::process::types::pid_of_parts;
use crate::process::{Message, ProcessId, SendError};
use crate::router::{delivered, MessageRouter};
use crate::term::{pairs_view, Term, TermView};
use crate::text::str_eq;
use crate::runtime::Runtime;
use vstd::prelude::*;

verus! {

/// The sender of an unbounded `local_sync` channel.
#[verifier::external_type_specification]
#[verifier::external_body]
#[verifier::reject_recursive_types(T)]
pub struct ExLocalTx<T>(local_sync::mpsc::unbounded::Tx<T>);

/// What the transport to other nodes is told to do.
#[derive(Debug)]
pub enum RouterCommand {
    Send { node_id: u64, frame: Frame },
}

/// `local_sync::mpsc::unbounded::Tx::send`, as whether the channel took the command. That
/// depends on the other side of the channel, so nothing is claimed of it.
#[verifier::external_body]
fn put_command(tx: &local_sync::mpsc::unbounded::Tx<RouterCommand>, command: RouterCommand) -> bool {
    tx.send(command).is_ok()
}

/// The router of a node: it delivers to the processes of the node's table, and hands frames for
/// other nodes to the transport.
pub struct DistributedRouter {
    node_id: u64,
    remote_tx: local_sync::mpsc::unbounded::Tx<RouterCommand>,
}

impl DistributedRouter {
    pub closed spec fn node(self) -> u64 {
        self.node_id
    }

    /// The way to the transport.
    pub closed spec fn transport(self) -> local_sync::mpsc::unbounded::Tx<RouterCommand> {
        self.remote_tx
    }

    /// Whether the command was handed to the transport, and `taken` says whether it was taken.
    pub closed spec fn hands(self, command: RouterCommand, taken: bool) -> bool {
        call_ensures(put_command, (&self.transport(), command), taken)
    }

    pub fn new(
        node_id: u64,
        remote_tx: local_sync::mpsc::unbounded::Tx<RouterCommand>,
    ) -> (r: Self)
        ensures
            r.node() == node_id,
            r.transport() == remote_tx,
    {
        Self { node_id, remote_tx }
    }
}

/// The result of handing a frame for a node to the transport.
pub fn remote_result(node_id: u64, taken: bool) -> (r: Result<(), SendError>)
    ensures
        r == (if taken {
            Ok::<(), SendError>(())
        } else {
            Err(SendError::NodeUnreachable(node_id))
        }),
{
    if taken {
        Ok(())
    } else {
        Err(SendError::NodeUnreachable(node_id))
    }
}

/// The command that carries a message to the node of its receiver.
pub fn remote_command(from: ProcessId, to: ProcessId, payload: Term) -> (r: RouterCommand)
    ensures
        r->Send_node_id == to.node(),
        r->Send_frame@ == send_frame_view(from, to, payload@),
{
    RouterCommand::Send { node_id: to.node_id(), frame: encode_send_frame(from, to, payload) }
}

impl MessageRouter for DistributedRouter {
    /// Delivers a message with a timestamp to a process of this node, or hands its frame to the
    /// transport, which fails where the transport is gone.
    fn route(&self, home: &ProcessTable, from: ProcessId, to: ProcessId, payload: Term) -> (r:
        Result<(), SendError>)
        ensures
            if to.node() == self.node() {
                delivered(*home, from, to, payload@, true, r)
            } else {
                exists|c: RouterCommand, taken: bool| #[trigger]
                    self.hands(c, taken) && c->Send_node_id == to.node() && c->Send_frame@
                        == send_frame_view(from, to, payload@) && r == (if taken {
                        Ok::<(), SendError>(())
                    } else {
                        Err(SendError::NodeUnreachable(to.node()))
                    })
            },
    {
        if to.node_id() == self.node_id {
            let msg = Message::new(from, payload);
            let ghost sent = msg;
            let r = home.send(to, msg);
            assert(home.answers(to, sent, r));
            r
        } else {
            let command = remote_command(from, to, payload);
            let ghost handed = command;
            let taken = put_command(&self.remote_tx, command);
            assert(self.hands(handed, taken));
            remote_result(to.node_id(), taken)
        }
    }
}

/// A field of a header that holds a number.
pub open spec fn field(name: Seq<char>, n: u64) -> (TermView, TermView) {
    (TermView::String(name), TermView::Integer(n as int))
}

/// The header that addresses a message: node and number of the sender, then of the receiver.
pub open spec fn address_header(from: ProcessId, to: ProcessId) -> TermView {
    TermView::Mapping(
        seq![
            field("from_node"@, from.node()),
            field("from_local"@, from.local()),
            field("to_node"@, to.node()),
            field("to_local"@, to.local()),
        ],
    )
}

/// The frame that carries a message.
pub open spec fn send_frame_view(from: ProcessId, to: ProcessId, payload: TermView) -> FrameView {
    FrameView {
        version: 1,
        msg_type: MsgType::Send,
        request_id: 0,
        header: address_header(from, to),
        payload,
    }
}

/// The frame that carries a message.
pub fn encode_send_frame(from: ProcessId, to: ProcessId, payload: Term) -> (r: Frame)
    ensures
        r@ == send_frame_view(from, to, payload@),
        r.payload == payload,
{
    let mut pairs: Vec<(Term, Term)> = Vec::new();
    pairs.push((Term::from_text("from_node"), Term::from_u64(from.node_id())));
    pairs.push((Term::from_text("from_local"), Term::from_u64(from.local_id())));
    pairs.push((Term::from_text("to_node"), Term::from_u64(to.node_id())));
    pairs.push((Term::from_text("to_local"), Term::from_u64(to.local_id())));
    let header = Term::Mapping(pairs);
    assert(header@->Mapping_0 =~= address_header(from, to)->Mapping_0);
    Frame { version: 1, msg_type: MsgType::Send, request_id: 0, header, payload }
}

/// The fields of an address.
#[derive(Debug, Clone, Copy, PartialEq, Eq, Structural)]
pub enum AddressField {
    FromNode,
    FromLocal,
    ToNode,
    ToLocal,
    Other,
}

/// The address field that a key names.
pub open spec fn named_field(key: TermView) -> AddressField {
    match key {
        TermView::String(s) => if s == "from_node"@ {
            AddressField::FromNode
        } else if s == "from_local"@ {
            AddressField::FromLocal
        } else if s == "to_node"@ {
            AddressField::ToNode
        } else if s == "to_local"@ {
            AddressField::ToLocal
        } else {
            AddressField::Other
        },
        _ => AddressField::Other,
    }
}

/// The address field that a key names.
fn field_of(key: &Term) -> (r: AddressField)
    ensures
        r == named_field(key@),
{
    match key.as_str() {
        Some(s) => if str_eq(s, "from_node") {
            AddressField::FromNode
        } else if str_eq(s, "from_local") {
            AddressField::FromLocal
        } else if str_eq(s, "to_node") {
            AddressField::ToNode
        } else if str_eq(s, "to_local") {
            AddressField::ToLocal
        } else {
            AddressField::Other
        },
        None => AddressField::Other,
    }
}

/// The complaint about an address field that holds no number.
pub open spec fn field_complaint(f: AddressField) -> Seq<char> {
    match f {
        AddressField::FromNode => "from_node must be u64"@,
        AddressField::FromLocal => "from_local must be u64"@,
        AddressField::ToNode => "to_node must be u64"@,
        AddressField::ToLocal => "to_local must be u64"@,
        AddressField::Other => Seq::empty(),
    }
}

/// Whether an entry of a header is an address field that holds no number.
pub open spec fn bad_entry(e: (TermView, TermView)) -> bool {
    named_field(e.0) != AddressField::Other && e.1.as_u64() is None
}

/// What the last entry for an address field holds, if there is one.
pub open spec fn last_value(pairs: Seq<(TermView, TermView)>, f: AddressField) -> Option<u64>
    decreases pairs.len(),
{
    if pairs.len() == 0 {
        None
    } else if named_field(pairs.last().0) == f {
        pairs.last().1.as_u64()
    } else {
        last_value(pairs.drop_last(), f)
    }
}

/// A number that may be missing, as zero.
pub open spec fn or_zero(n: Option<u64>) -> u64 {
    match n {
        Some(v) => v,
        None => 0,
    }
}

/// The first address field that holds no number, if there is one.
pub open spec fn first_bad(pairs: Seq<(TermView, TermView)>) -> Option<AddressField>
    decreases pairs.len(),
{
    if pairs.len() == 0 {
        None
    } else if first_bad(pairs.drop_last()) is Some {
        first_bad(pairs.drop_last())
    } else if bad_entry(pairs.last()) {
        Some(named_field(pairs.last().0))
    } else {
        None
    }
}

/// The sender and receiver that a header names, or the complaint about it. A header must be a
/// mapping; the first address field in it that holds no number is complained of; the receiver
/// must be named; a field that occurs twice counts by its last entry.
pub open spec fn address_of(header: TermView) -> Result<(ProcessId, ProcessId), Seq<char>> {
    match header {
        TermView::Mapping(pairs) => match first_bad(pairs) {
            Some(f) => Err(field_complaint(f)),
            None => if last_value(pairs, AddressField::ToNode) is None || last_value(
                pairs,
                AddressField::ToLocal,
            ) is None {
                Err("missing required addressing fields: to_node and to_local"@)
            } else {
                Ok(
                    (
                        ProcessId::of(
                            or_zero(last_value(pairs, AddressField::FromNode)),
                            0,
                            or_zero(last_value(pairs, AddressField::FromLocal)),
                        ),
                        ProcessId::of(
                            or_zero(last_value(pairs, AddressField::ToNode)),
                            0,
                            or_zero(last_value(pairs, AddressField::ToLocal)),
                        ),
                    ),
                )
            },
        },
        _ => Err("frame header must be a Map"@),
    }
}

/// A bad entry stays the first bad one, whatever comes behind it.
proof fn first_bad_stays(pairs: Seq<(TermView, TermView)>, n: int)
    requires
        0 <= n <= pairs.len(),
        first_bad(pairs.take(n)) is Some,
    ensures
        first_bad(pairs) == first_bad(pairs.take(n)),
    decreases pairs.len(),
{
    if n < pairs.len() {
        assert(pairs.drop_last().take(n) =~= pairs.take(n));
        first_bad_stays(pairs.drop_last(), n);
    } else {
        assert(pairs.take(n) =~= pairs);
    }
}

/// The content of a reading of an address.
pub open spec fn address_outcome(r: Result<(ProcessId, ProcessId), SendError>) -> Result<
    (ProcessId, ProcessId),
    Seq<char>,
> {
    match r {
        Ok(pair) => Ok(pair),
        Err(SendError::MalformedFrame(s)) => Err(s@),
        Err(_) => Err(Seq::empty()),
    }
}

/// The error of an address field that holds no number.
fn complaint(f: AddressField) -> (r: SendError)
    requires
        f != AddressField::Other,
    ensures
        r is MalformedFrame,
        r->MalformedFrame_0@ == field_complaint(f),
{
    match f {
        AddressField::FromNode => SendError::MalformedFrame("from_node must be u64"),
        AddressField::FromLocal => SendError::MalformedFrame("from_local must be u64"),
        AddressField::ToNode => SendError::MalformedFrame("to_node must be u64"),
        _ => SendError::MalformedFrame("to_local must be u64"),
    }
}

/// The sender and receiver that a header names.
pub fn inbound_address(header: &Term) -> (r: Result<(ProcessId, ProcessId), SendError>)
    ensures
        r is Err ==> r->Err_0 is MalformedFrame,
        address_of(header@) == address_outcome(r),
{
    let entries = match header.as_map() {
        Some(m) => m,
        None => {
            return Err(SendError::MalformedFrame("frame header must be a Map"));
        },
    };
    let ghost pairs = header@->Mapping_0;
    assert(pairs =~= pairs_view(entries@));
    let mut from_node: Option<u64> = None;
    let mut from_local: Option<u64> = None;
    let mut to_node: Option<u64> = None;
    let mut to_local: Option<u64> = None;
    let mut i: usize = 0;
    while i < entries.len()
        invariant
            header@ == TermView::Mapping(pairs),
            pairs == pairs_view(entries@),
            i <= entries@.len(),
            first_bad(pairs.take(i as int)) is None,
            from_node == last_value(pairs.take(i as int), AddressField::FromNode),
            from_local == last_value(pairs.take(i as int), AddressField::FromLocal),
            to_node == last_value(pairs.take(i as int), AddressField::ToNode),
            to_local == last_value(pairs.take(i as int), AddressField::ToLocal),
        decreases entries@.len() - i,
    {
        let (key, value) = (&entries[i].0, &entries[i].1);
        proof {
            assert(pairs[i as int] == (key@, value@));
            assert(pairs.take(i + 1).drop_last() =~= pairs.take(i as int));
            assert(pairs.take(i + 1).last() == pairs[i as int]);
        }
        let f = field_of(key);
        if f != AddressField::Other {
            match value.as_u64() {
                Some(n) => match f {
                    AddressField::FromNode => {
                        from_node = Some(n);
                    },
                    AddressField::FromLocal => {
                        from_local = Some(n);
                    },
                    AddressField::ToNode => {
                        to_node = Some(n);
                    },
                    _ => {
                        to_local = Some(n);
                    },
                },
                None => {
                    proof {
                        assert(bad_entry(pairs[i as int]));
                        first_bad_stays(pairs, i + 1);
                    }
                    return Err(complaint(f));
                },
            }
        }
        i = i + 1;
    }
    assert(pairs.take(pairs.len() as int) =~= pairs);
    match (to_node, to_local) {
        (Some(node), Some(local)) => {
            let from = ProcessId::new(number_or_zero(from_node), 0, number_or_zero(from_local));
            Ok((from, ProcessId::new(node, 0, local)))
        },
        _ => Err(
            SendError::MalformedFrame("missing required addressing fields: to_node and to_local"),
        ),
    }
}

fn number_or_zero(n: Option<u64>) -> (r: u64)
    ensures
        r == or_zero(n),
{
    match n {
        Some(v) => v,
        None => 0,
    }
}

/// Delivers a frame from another node to the process that its header names.
pub fn deliver_inbound_frame(table: &ProcessTable, frame: &Frame) -> (r: Result<(), SendError>)
    requires
        table.wf(),
    ensures
        match address_of(frame.header@) {
            Ok((from, to)) => delivered(*table, from, to, frame.payload@, true, r),
            Err(s) => r is Err && r->Err_0 is MalformedFrame && r->Err_0->MalformedFrame_0@ == s,
        },
{
    match inbound_address(&frame.header) {
        Ok((from, to)) => {
            let msg = Message::new(from, frame.payload.clone());
            let ghost sent = msg;
            let r = table.send(to, msg);
            assert(table.answers(to, sent, r));
            r
        },
        Err(e) => Err(e),
    }
}

/// What is sent arrives: the header that addresses a message to a process on the first thread of
/// its node names just this process, and as the sender the process with the sender's number on
/// the first thread of the sender's node.
pub proof fn address_round_trip(from: ProcessId, to: ProcessId)
    requires
        to.thread() == 0,
    ensures
        address_of(address_header(from, to)) == Ok::<(ProcessId, ProcessId), Seq<char>>(
            (ProcessId::of(from.node(), 0, from.local()), to),
        ),
{
    broadcast use pid_of_parts;

    reveal_strlit("from_node");
    reveal_strlit("from_local");
    reveal_strlit("to_node");
    reveal_strlit("to_local");
    assert("from_node"@.len() == 9);
    assert("from_local"@.len() == 10);
    assert("to_node"@.len() == 7);
    assert("to_local"@.len() == 8);
    let a = field("from_node"@, from.node());
    let b = field("from_local"@, from.local());
    let c = field("to_node"@, to.node());
    let d = field("to_local"@, to.local());
    let all = address_header(from, to)->Mapping_0;
    assert(all =~= seq![a, b, c, d]);
    assert(all.drop_last() =~= seq![a, b, c]);
    assert(seq![a, b, c].drop_last() =~= seq![a, b]);
    assert(seq![a, b].drop_last() =~= seq![a]);
    assert(seq![a].drop_last() =~= Seq::<(TermView, TermView)>::empty());
    reveal_with_fuel(first_bad, 5);
    reveal_with_fuel(last_value, 5);
    assert(named_field(a.0) == AddressField::FromNode);
    assert(named_field(b.0) == AddressField::FromLocal);
    assert(named_field(c.0) == AddressField::ToNode);
    assert(named_field(d.0) == AddressField::ToLocal);
    crate::process::types::pid_is_its_parts(to, ProcessId::of(to.node(), 0, to.local()));
}

/// A runtime with the router of its node delivers to its own processes: what is sent to a process
/// of the node goes into the mailbox that the runtime's table holds for it.
pub proof fn routers_reach_home(
    runtime: Runtime<DistributedRouter>,
    router: DistributedRouter,
    from: ProcessId,
    dest: ProcessId,
    payload: Term,
    r: Result<(), SendError>,
)
    requires
        runtime.wf(),
        runtime.routes_by() matches Some(own) && *own == router,
        dest.node() == router.node(),
        runtime.answers(from, dest, payload, r),
    ensures
        delivered(runtime.processes(), from, dest, payload@, true, r),
{
}

/// A frame that carries a message delivers it: the receiver, on the first thread of its node, is
/// sent the payload, from the sender's number on the first thread of the sender's node.
pub proof fn frames_deliver(
    table: ProcessTable,
    from: ProcessId,
    to: ProcessId,
    frame: Frame,
    payload: TermView,
    r: Result<(), SendError>,
)
    requires
        to.thread() == 0,
        frame@ == send_frame_view(from, to, payload),
        call_ensures(deliver_inbound_frame, (&table, &frame), r),
    ensures
        delivered(table, ProcessId::of(from.node(), 0, from.local()), to, payload, true, r),
        !table.alive().dom().contains(to) ==> r == Err::<(), SendError>(SendError::ProcessDead(to)),
{
    address_round_trip(from, to);
}

/// Whether the key names an address field.
pub open spec fn is_address_key(key: TermView) -> bool {
    ||| key == TermView::String("from_node"@)
    ||| key == TermView::String("from_local"@)
    ||| key == TermView::String("to_node"@)
    ||| key == TermView::String("to_local"@)
}

proof fn keys_name_their_fields()
    ensures
        named_field(TermView::String("from_node"@)) == AddressField::FromNode,
        named_field(TermView::String("from_local"@)) == AddressField::FromLocal,
        named_field(TermView::String("to_node"@)) == AddressField::ToNode,
        named_field(TermView::String("to_local"@)) == AddressField::ToLocal,
{
    reveal_strlit("from_node");
    reveal_strlit("from_local");
    reveal_strlit("to_node");
    reveal_strlit("to_local");
    assert("from_node"@.len() == 9);
    assert("from_local"@.len() == 10);
    assert("to_node"@.len() == 7);
    assert("to_local"@.len() == 8);
}

/// The key that names an address field.
pub open spec fn key_of(f: AddressField) -> TermView {
    match f {
        AddressField::FromNode => TermView::String("from_node"@),
        AddressField::FromLocal => TermView::String("from_local"@),
        AddressField::ToNode => TermView::String("to_node"@),
        AddressField::ToLocal => TermView::String("to_local"@),
        AddressField::Other => TermView::Nil,
    }
}

proof fn first_bad_is_a_bad_entry(pairs: Seq<(TermView, TermView)>)
    ensures
        first_bad(pairs) is Some <==> exists|i: int|
            0 <= i < pairs.len() && bad_entry(#[trigger] pairs[i]),
    decreases pairs.len(),
{
    if pairs.len() > 0 {
        let front = pairs.drop_last();
        first_bad_is_a_bad_entry(front);
        if first_bad(front) is Some {
            let i = choose|i: int| 0 <= i < front.len() && bad_entry(#[trigger] front[i]);
            assert(pairs[i] == front[i]);
        }
        if exists|i: int| 0 <= i < pairs.len() && bad_entry(#[trigger] pairs[i]) {
            let i = choose|i: int| 0 <= i < pairs.len() && bad_entry(#[trigger] pairs[i]);
            if i < front.len() {
                assert(front[i] == pairs[i]);
            } else {
                assert(pairs.last() == pairs[i]);
            }
        }
        assert(pairs.last() == pairs[pairs.len() - 1]);
    }
}

proof fn last_value_is_of_the_last_entry(
    pairs: Seq<(TermView, TermView)>,
    f: AddressField,
    i: int,
)
    requires
        f != AddressField::Other,
        forall|j: int| i < j < pairs.len() ==> (#[trigger] pairs[j]).0 != key_of(f),
        -1 <= i < pairs.len(),
        i >= 0 ==> pairs[i].0 == key_of(f),
    ensures
        i >= 0 ==> last_value(pairs, f) == pairs[i].1.as_u64(),
        i < 0 ==> last_value(pairs, f) is None,
    decreases pairs.len(),
{
    keys_name_their_fields();
    if pairs.len() > 0 {
        if i == pairs.len() - 1 {
        } else {
            assert(pairs[pairs.len() - 1].0 != key_of(f));
            assert(named_field(pairs.last().0) != f);
            let front = pairs.drop_last();
            assert forall|j: int| i < j < front.len() implies (#[trigger] front[j]).0 != key_of(
                f,
            ) by {
                assert(front[j] == pairs[j]);
            }
            last_value_is_of_the_last_entry(front, f, i);
        }
    }
}

/// A header that is no mapping, in which an address field holds no number, or that does not name
/// the receiver's node and number, is refused.
pub proof fn incomplete_addresses_are_refused(
    header: TermView,
    pairs: Seq<(TermView, TermView)>,
    i: int,
)
    requires
        !(header is Mapping) || (header == TermView::Mapping(pairs) && ((0 <= i < pairs.len()
            && is_address_key(pairs[i].0) && pairs[i].1.as_u64() is None) || (forall|j: int|
            0 <= j < pairs.len() ==> (#[trigger] pairs[j]).0 != TermView::String("to_node"@)) || (
        forall|j: int|
            0 <= j < pairs.len() ==> (#[trigger] pairs[j]).0 != TermView::String("to_local"@)))),
    ensures
        address_of(header) is Err,
{
    keys_name_their_fields();
    if header == TermView::Mapping(pairs) {
        first_bad_is_a_bad_entry(pairs);
        if forall|j: int|
            0 <= j < pairs.len() ==> (#[trigger] pairs[j]).0 != TermView::String("to_node"@) {
            last_value_is_of_the_last_entry(pairs, AddressField::ToNode, -1);
        }
        if forall|j: int|
            0 <= j < pairs.len() ==> (#[trigger] pairs[j]).0 != TermView::String("to_local"@) {
            last_value_is_of_the_last_entry(pairs, AddressField::ToLocal, -1);
        }
        if 0 <= i < pairs.len() && is_address_key(pairs[i].0) && pairs[i].1.as_u64() is None {
            assert(bad_entry(pairs[i]));
        }
    }
}

/// A header in which every address field holds a number and that names the receiver's node and
/// number is taken, whatever else it holds.
pub proof fn complete_addresses_are_taken(pairs: Seq<(TermView, TermView)>, i: int, k: int)
    requires
        forall|j: int|
            0 <= j < pairs.len() && is_address_key((#[trigger] pairs[j]).0)
                ==> pairs[j].1.as_u64() is Some,
        0 <= i < pairs.len(),
        pairs[i].0 == TermView::String("to_node"@),
        0 <= k < pairs.len(),
        pairs[k].0 == TermView::String("to_local"@),
    ensures
        address_of(TermView::Mapping(pairs)) is Ok,
{
    keys_name_their_fields();
    first_bad_is_a_bad_entry(pairs);
    assert forall|j: int| 0 <= j < pairs.len() implies !bad_entry(#[trigger] pairs[j]) by {
        if named_field(pairs[j].0) != AddressField::Other {
            assert(is_address_key(pairs[j].0));
        }
    }
    let a = last_index(pairs, TermView::String("to_node"@), i);
    let b = last_index(pairs, TermView::String("to_local"@), k);
    last_value_is_of_the_last_entry(pairs, AddressField::ToNode, a);
    last_value_is_of_the_last_entry(pairs, AddressField::ToLocal, b);
}

proof fn last_index(pairs: Seq<(TermView, TermView)>, key: TermView, i: int) -> (r: int)
    requires
        0 <= i < pairs.len(),
        pairs[i].0 == key,
    ensures
        0 <= r < pairs.len(),
        pairs[r].0 == key,
        forall|j: int| r < j < pairs.len() ==> (#[trigger] pairs[j]).0 != key,
    decreases pairs.len() - i,
{
    if exists|j: int| i < j < pairs.len() && (#[trigger] pairs[j]).0 == key {
        let j = choose|j: int| i < j < pairs.len() && (#[trigger] pairs[j]).0 == key;
        last_index(pairs, key, j)
    } else {
        i
    }
}

/// The address is what the header's fields hold: node and number of sender and receiver are what
/// the last entries under their keys hold, and the sender's are zero where there is none. Both
/// processes are on the first thread of their nodes.
pub proof fn address_is_what_the_fields_hold(
    pairs: Seq<(TermView, TermView)>,
    from: ProcessId,
    to: ProcessId,
    i: int,
)
    requires
        address_of(TermView::Mapping(pairs)) == Ok::<(ProcessId, ProcessId), Seq<char>>((from, to)),
        -1 <= i < pairs.len(),
    ensures
        from.thread() == 0,
        to.thread() == 0,
        i >= 0 && pairs[i].0 == TermView::String("to_node"@) && (forall|j: int|
            i < j < pairs.len() ==> (#[trigger] pairs[j]).0 != TermView::String("to_node"@))
            ==> pairs[i].1.as_u64() == Some(to.node()),
        i >= 0 && pairs[i].0 == TermView::String("to_local"@) && (forall|j: int|
            i < j < pairs.len() ==> (#[trigger] pairs[j]).0 != TermView::String("to_local"@))
            ==> pairs[i].1.as_u64() == Some(to.local()),
        i >= 0 && pairs[i].0 == TermView::String("from_node"@) && (forall|j: int|
            i < j < pairs.len() ==> (#[trigger] pairs[j]).0 != TermView::String("from_node"@))
            ==> pairs[i].1.as_u64() == Some(from.node()),
        i >= 0 && pairs[i].0 == TermView::String("from_local"@) && (forall|j: int|
            i < j < pairs.len() ==> (#[trigger] pairs[j]).0 != TermView::String("from_local"@))
            ==> pairs[i].1.as_u64() == Some(from.local()),
        (forall|j: int|
            0 <= j < pairs.len() ==> (#[trigger] pairs[j]).0 != TermView::String("from_node"@))
            ==> from.node() == 0,
        (forall|j: int|
            0 <= j < pairs.len() ==> (#[trigger] pairs[j]).0 != TermView::String("from_local"@))
            ==> from.local() == 0,
{
    broadcast use pid_of_parts;

    keys_name_their_fields();
    first_bad_is_a_bad_entry(pairs);
    if i >= 0 && pairs[i].0 == key_of(AddressField::ToNode) && (forall|j: int|
        i < j < pairs.len() ==> (#[trigger] pairs[j]).0 != key_of(AddressField::ToNode)) {
        last_value_is_of_the_last_entry(pairs, AddressField::ToNode, i);
    }
    if i >= 0 && pairs[i].0 == key_of(AddressField::ToLocal) && (forall|j: int|
        i < j < pairs.len() ==> (#[trigger] pairs[j]).0 != key_of(AddressField::ToLocal)) {
        last_value_is_of_the_last_entry(pairs, AddressField::ToLocal, i);
    }
    if i >= 0 && pairs[i].0 == key_of(AddressField::FromNode) && (forall|j: int|
        i < j < pairs.len() ==> (#[trigger] pairs[j]).0 != key_of(AddressField::FromNode)) {
        last_value_is_of_the_last_entry(pairs, AddressField::FromNode, i);
        assert(!bad_entry(pairs[i]));
    }
    if i >= 0 && pairs[i].0 == key_of(AddressField::FromLocal) && (forall|j: int|
        i < j < pairs.len() ==> (#[trigger] pairs[j]).0 != key_of(AddressField::FromLocal)) {
        last_value_is_of_the_last_entry(pairs, AddressField::FromLocal, i);
        assert(!bad_entry(pairs[i]));
    }
    if forall|j: int|
        0 <= j < pairs.len() ==> (#[trigger] pairs[j]).0 != key_of(AddressField::FromNode) {
        last_value_is_of_the_last_entry(pairs, AddressField::FromNode, -1);
    }
    if forall|j: int|
        0 <= j < pairs.len() ==> (#[trigger] pairs[j]).0 != key_of(AddressField::FromLocal) {
        last_value_is_of_the_last_entry(pairs, AddressField::FromLocal, -1);
    }
}

/// The complaint about an address is about the first thing that is wrong with it: that the header
/// is no mapping, the first address field that holds no number, or, where all hold one, that the
/// receiver is not named.
pub proof fn complaints_are_about_the_first_wrong_thing(
    header: TermView,
    pairs: Seq<(TermView, TermView)>,
    i: int,
)
    ensures
        !(header is Mapping) ==> address_of(header) == Err::<(ProcessId, ProcessId), Seq<char>>(
            "frame header must be a Map"@,
        ),
        header == TermView::Mapping(pairs) && 0 <= i < pairs.len() && pairs[i].1.as_u64() is None && (
        forall|j: int|
            0 <= j < i && is_address_key((#[trigger] pairs[j]).0) ==> pairs[j].1.as_u64() is Some)
            ==> {
            &&& pairs[i].0 == TermView::String("from_node"@) ==> address_of(header) == Err::<
                (ProcessId, ProcessId),
                Seq<char>,
            >("from_node must be u64"@)
            &&& pairs[i].0 == TermView::String("from_local"@) ==> address_of(header) == Err::<
                (ProcessId, ProcessId),
                Seq<char>,
            >("from_local must be u64"@)
            &&& pairs[i].0 == TermView::String("to_node"@) ==> address_of(header) == Err::<
                (ProcessId, ProcessId),
                Seq<char>,
            >("to_node must be u64"@)
            &&& pairs[i].0 == TermView::String("to_local"@) ==> address_of(header) == Err::<
                (ProcessId, ProcessId),
                Seq<char>,
            >("to_local must be u64"@)
        },
        header == TermView::Mapping(pairs) && address_of(header) is Err && (forall|j: int|
            0 <= j < pairs.len() && is_address_key((#[trigger] pairs[j]).0)
                ==> pairs[j].1.as_u64() is Some) ==> address_of(header) == Err::<
            (ProcessId, ProcessId),
            Seq<char>,
        >("missing required addressing fields: to_node and to_local"@),
{
    keys_name_their_fields();
    if header == TermView::Mapping(pairs) {
        assert forall|j: int|
            0 <= j < pairs.len() && bad_entry(#[trigger] pairs[j]) implies is_address_key(
            pairs[j].0,
        ) && pairs[j].1.as_u64() is None by {}
        first_bad_is_a_bad_entry(pairs);
        if 0 <= i < pairs.len() && pairs[i].1.as_u64() is None && is_address_key(pairs[i].0)
            && forall|j: int|
            0 <= j < i && is_address_key((#[trigger] pairs[j]).0) ==> pairs[j].1.as_u64() is Some {
            let front = pairs.take(i);
            assert forall|j: int| 0 <= j < front.len() implies !bad_entry(#[trigger] front[j]) by {
                assert(front[j] == pairs[j]);
            }
            first_bad_is_a_bad_entry(front);
            let upto = pairs.take(i + 1);
            assert(upto.drop_last() =~= front);
            assert(upto.last() == pairs[i]);
            assert(first_bad(upto) == Some(named_field(pairs[i].0)));
            first_bad_stays(pairs, i + 1);
        }
    }
}

} // verus!
