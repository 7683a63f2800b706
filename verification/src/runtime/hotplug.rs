use super::context::RunContext;
use crate::config::symboltable::{Symbol, SymbolEntry, SymbolId};
use crate::util::text::same_text;
use vstd::prelude::*;

verus! {

/// What the hardware layer reports: something happened to a piece of
/// hardware.
#[derive(Debug)]
pub struct DeviceEvent {
    /// What happened, where the report says so in readable text.
    pub action: Option<String>,
    /// The tags of the hardware, where the report carries them.
    pub tags: Option<Vec<String>>,
}

/// Where a piece of hardware stands among the declared devices.
#[derive(Debug, Clone, Copy, PartialEq, Eq, Structural)]
pub enum DeviceState {
    /// It is the device at this position among those that are not plugged in.
    Offline(usize),
    /// It is the device at this position among those that are plugged in.
    Online(usize),
    UnknownDevice,
    InvalidTags,
}

/// What a report made of the state.
#[derive(Debug, Clone, Copy, PartialEq, Eq, Structural)]
pub enum DeviceTransition {
    /// The report names no action: nothing changed.
    NoAction,
    /// The report names an action other than `add` and `remove`: nothing
    /// changed.
    SkippedAction,
    /// The device was not plugged in and now is; its driver is due.
    PluggedIn(SymbolId),
    /// The device was plugged in and no longer is; its driver is to go.
    Unplugged(SymbolId),
    /// The device was reported as added while it was plugged in, and no
    /// device that is not plugged in has one of the tags: nothing changed.
    DuplicateAdd(SymbolId),
    /// The device was reported as removed while it was not plugged in, and
    /// no device that is plugged in has one of the tags: nothing changed.
    DuplicateRemove(SymbolId),
    /// The tags are those of no declared device: nothing changed.
    UnknownDevice,
    /// The report carries no tags: nothing changed.
    InvalidTags,
}

/// The tags as character sequences.
pub open spec fn tag_views(tags: Vec<String>) -> Seq<Seq<char>> {
    Seq::new(tags@.len(), |i: int| tags@[i]@)
}

/// The tags of a report as character sequences.
pub open spec fn event_tags(tags: Option<Vec<String>>) -> Option<Seq<Seq<char>>> {
    match tags {
        Some(tags) => Some(tag_views(tags)),
        None => None,
    }
}

/// Whether `id` is a device whose tag is among `tags`.
pub open spec fn tagged(table: Seq<SymbolEntry>, id: SymbolId, tags: Seq<Seq<char>>) -> bool {
    &&& id < table.len()
    &&& table[id as int].symbol matches Symbol::Device(device)
    &&& tags.contains(device.tag@)
}

/// The device at position `i` of `ids` is the first whose tag is among `tags`.
pub open spec fn first_tagged(
    table: Seq<SymbolEntry>,
    ids: Seq<SymbolId>,
    tags: Seq<Seq<char>>,
    i: int,
) -> bool {
    &&& 0 <= i < ids.len()
    &&& tagged(table, ids[i], tags)
    &&& forall|j: int| 0 <= j < i ==> !tagged(table, #[trigger] ids[j], tags)
}

/// No device of `ids` has a tag that is among `tags`.
pub open spec fn none_tagged(table: Seq<SymbolEntry>, ids: Seq<SymbolId>, tags: Seq<Seq<char>>) -> bool {
    forall|j: int| 0 <= j < ids.len() ==> !tagged(table, #[trigger] ids[j], tags)
}

/// Where the hardware with the tags `tags` stands when it is reported as
/// added (`adding`) or as removed. A device that is added is looked for among
/// the devices that are not plugged in, and only if none of them has one of
/// the tags, among those that are; a device that is removed is looked for
/// among the devices that are plugged in, and only then among those that are
/// not. In each list the first device with one of the tags is the one.
pub open spec fn device_state(
    table: Seq<SymbolEntry>,
    online: Seq<SymbolId>,
    offline: Seq<SymbolId>,
    adding: bool,
    tags: Option<Seq<Seq<char>>>,
) -> DeviceState {
    match tags {
        None => DeviceState::InvalidTags,
        Some(tags) => {
            let among_online = DeviceState::Online(
                (choose|i: int| first_tagged(table, online, tags, i)) as usize,
            );
            let among_offline = DeviceState::Offline(
                (choose|i: int| first_tagged(table, offline, tags, i)) as usize,
            );
            if none_tagged(table, online, tags) && none_tagged(table, offline, tags) {
                DeviceState::UnknownDevice
            } else if adding {
                if !none_tagged(table, offline, tags) {
                    among_offline
                } else {
                    among_online
                }
            } else {
                if !none_tagged(table, online, tags) {
                    among_online
                } else {
                    among_offline
                }
            }
        },
    }
}

/// There is one first device with one of the tags, if there is any.
pub proof fn lemma_first_tagged_unique(
    table: Seq<SymbolEntry>,
    ids: Seq<SymbolId>,
    tags: Seq<Seq<char>>,
    i: int,
)
    requires
        first_tagged(table, ids, tags, i),
    ensures
        !none_tagged(table, ids, tags),
        (choose|k: int| first_tagged(table, ids, tags, k)) == i,
{
    let k = choose|k: int| first_tagged(table, ids, tags, k);
    if k < i {
        assert(!tagged(table, ids[k], tags));
    } else if i < k {
        assert(!tagged(table, ids[i], tags));
    }
}

/// What a report of an addition (`adding`) or of a removal makes of the
/// devices that are plugged in and of those that are not, given where the
/// hardware stands among them.
pub open spec fn plug_step(
    online: Seq<SymbolId>,
    offline: Seq<SymbolId>,
    adding: bool,
    state: DeviceState,
) -> (Seq<SymbolId>, Seq<SymbolId>, DeviceTransition) {
    match state {
        DeviceState::Offline(index) => if adding {
            (
                online.push(offline[index as int]),
                offline.remove(index as int),
                DeviceTransition::PluggedIn(offline[index as int]),
            )
        } else {
            (online, offline, DeviceTransition::DuplicateRemove(offline[index as int]))
        },
        DeviceState::Online(index) => if adding {
            (online, offline, DeviceTransition::DuplicateAdd(online[index as int]))
        } else {
            (
                online.remove(index as int),
                offline.push(online[index as int]),
                DeviceTransition::Unplugged(online[index as int]),
            )
        },
        DeviceState::UnknownDevice => (online, offline, DeviceTransition::UnknownDevice),
        DeviceState::InvalidTags => (online, offline, DeviceTransition::InvalidTags),
    }
}

/// What a report makes of the devices that are plugged in and of those that
/// are not. A report without an action, or with an action other than `add`
/// and `remove`, changes nothing.
pub open spec fn event_step(
    table: Seq<SymbolEntry>,
    online: Seq<SymbolId>,
    offline: Seq<SymbolId>,
    action: Option<Seq<char>>,
    tags: Option<Seq<Seq<char>>>,
) -> (Seq<SymbolId>, Seq<SymbolId>, DeviceTransition) {
    match action {
        None => (online, offline, DeviceTransition::NoAction),
        Some(action) => if action == "add"@ {
            plug_step(online, offline, true, device_state(table, online, offline, true, tags))
        } else if action == "remove"@ {
            plug_step(online, offline, false, device_state(table, online, offline, false, tags))
        } else {
            (online, offline, DeviceTransition::SkippedAction)
        },
    }
}

/// The action of a report as a character sequence.
pub open spec fn event_action(action: Option<String>) -> Option<Seq<char>> {
    match action {
        Some(action) => Some(action@),
        None => None,
    }
}

/// Whether `tag` is among `tags`.
fn has_tag(tags: &Vec<String>, tag: &String) -> (has: bool)
    ensures
        has == tag_views(*tags).contains(tag@),
{
    let mut i: usize = 0;
    while i < tags.len()
        invariant
            i <= tags@.len(),
            forall|j: int| 0 <= j < i ==> tag_views(*tags)[j] != tag@,
        decreases tags@.len() - i,
    {
        if tags[i] == *tag {
            assert(tag_views(*tags)[i as int] == tag@);
            return true;
        }
        i += 1;
    }
    false
}

impl<'prog> RunContext<'prog> {
    /// Whether the device `id` has one of the tags.
    fn is_tagged(&self, id: SymbolId, tags: &Vec<String>) -> (is: bool)
        ensures
            is == tagged(self.table(), id, tag_views(*tags)),
    {
        match self.thermal_program.symbol_table.get(id) {
            Some(Symbol::Device(device)) => has_tag(tags, &device.tag),
            _ => false,
        }
    }
}

impl<'prog> RunContext<'prog> {
    /// The position of the first device that is plugged in and has one of the
    /// tags.
    fn first_online(&self, tags: &Vec<String>) -> (found: Option<usize>)
        ensures
            match found {
                Some(i) => first_tagged(self.table(), self.online(), tag_views(*tags), i as int),
                None => none_tagged(self.table(), self.online(), tag_views(*tags)),
            },
    {
        let mut i: usize = 0;
        while i < self.online_devices.len()
            invariant
                i <= self.online_devices@.len(),
                forall|j: int|
                    0 <= j < i ==> !tagged(
                        self.table(),
                        #[trigger] self.online()[j],
                        tag_views(*tags),
                    ),
            decreases self.online_devices@.len() - i,
        {
            assert(self.online()[i as int] == self.online_devices@[i as int].symbol);
            if self.is_tagged(self.online_devices[i].symbol, tags) {
                return Some(i);
            }
            i += 1;
        }
        None
    }

    /// The position of the first device that is not plugged in and has one of
    /// the tags.
    fn first_offline(&self, tags: &Vec<String>) -> (found: Option<usize>)
        ensures
            match found {
                Some(i) => first_tagged(self.table(), self.offline(), tag_views(*tags), i as int),
                None => none_tagged(self.table(), self.offline(), tag_views(*tags)),
            },
    {
        let mut i: usize = 0;
        while i < self.offline_devices.len()
            invariant
                i <= self.offline_devices@.len(),
                forall|j: int|
                    0 <= j < i ==> !tagged(
                        self.table(),
                        #[trigger] self.offline()[j],
                        tag_views(*tags),
                    ),
            decreases self.offline_devices@.len() - i,
        {
            if self.is_tagged(self.offline_devices[i], tags) {
                return Some(i);
            }
            i += 1;
        }
        None
    }
}

/// Where the hardware with the tags `tags` stands among the declared
/// devices, when it is reported as added (`adding`) or as removed.
pub fn find_device_state(tags: &Option<Vec<String>>, adding: bool, context: &RunContext) -> (state:
    DeviceState)
    ensures
        state == device_state(
            context.table(),
            context.online(),
            context.offline(),
            adding,
            event_tags(*tags),
        ),
        match state {
            DeviceState::Online(index) => index < context.online().len(),
            DeviceState::Offline(index) => index < context.offline().len(),
            _ => true,
        },
{
    let list = match tags {
        Some(list) => list,
        None => {
            return DeviceState::InvalidTags;
        },
    };
    let ghost wanted = tag_views(*list);
    let among_online = context.first_online(list);
    let among_offline = context.first_offline(list);
    proof {
        if let Some(i) = among_online {
            lemma_first_tagged_unique(context.table(), context.online(), wanted, i as int);
        }
        if let Some(i) = among_offline {
            lemma_first_tagged_unique(context.table(), context.offline(), wanted, i as int);
        }
    }
    if adding {
        match (among_offline, among_online) {
            (Some(index), _) => DeviceState::Offline(index),
            (None, Some(index)) => DeviceState::Online(index),
            (None, None) => DeviceState::UnknownDevice,
        }
    } else {
        match (among_online, among_offline) {
            (Some(index), _) => DeviceState::Online(index),
            (None, Some(index)) => DeviceState::Offline(index),
            (None, None) => DeviceState::UnknownDevice,
        }
    }
}

impl<'prog> RunContext<'prog> {
    /// Takes note of a report of the hardware layer, and says what it made of
    /// the state. A device that the report shows as added moves from those
    /// that are not plugged in to the end of those that are, and one shown as
    /// removed moves the other way. Where the tags of a report that adds are
    /// those of no device that is not plugged in, but of one that is, the
    /// report contradicts the state and changes nothing, and likewise the
    /// other way round.
    pub fn process_device_event(&mut self, event: &DeviceEvent) -> (transition: DeviceTransition)
        requires
            old(self).wf(),
        ensures
            final(self).wf(),
            final(self).thermal_program == old(self).thermal_program,
            final(self).dryrun == old(self).dryrun,
            (final(self).online(), final(self).offline(), transition) == event_step(
                old(self).table(),
                old(self).online(),
                old(self).offline(),
                event_action(event.action),
                event_tags(event.tags),
            ),
    {
        let action = match &event.action {
            Some(action) => action,
            None => {
                return DeviceTransition::NoAction;
            },
        };
        let adding = if same_text(action.as_str(), "add") {
            true
        } else if same_text(action.as_str(), "remove") {
            false
        } else {
            return DeviceTransition::SkippedAction;
        };
        proof {
            reveal_strlit("add");
            reveal_strlit("remove");
            assert("add"@ != "remove"@) by {
                assert("add"@.len() != "remove"@.len());
            }
        }
        match find_device_state(&event.tags, adding, self) {
            DeviceState::Offline(index) => {
                if adding {
                    DeviceTransition::PluggedIn(self.plug_in(index))
                } else {
                    DeviceTransition::DuplicateRemove(self.offline_devices[index])
                }
            },
            DeviceState::Online(index) => {
                if adding {
                    assert(self.online()[index as int] == self.online_devices@[index as int].symbol);
                    DeviceTransition::DuplicateAdd(self.online_devices[index].symbol)
                } else {
                    DeviceTransition::Unplugged(self.unplug(index))
                }
            },
            DeviceState::UnknownDevice => DeviceTransition::UnknownDevice,
            DeviceState::InvalidTags => DeviceTransition::InvalidTags,
        }
    }

    /// Takes note of the reports of the hardware layer, in their order.
    pub fn poll_device_events(&mut self, events: &Vec<DeviceEvent>) -> (transitions: Vec<
        DeviceTransition,
    >)
        requires
            old(self).wf(),
        ensures
            final(self).wf(),
            final(self).thermal_program == old(self).thermal_program,
            final(self).dryrun == old(self).dryrun,
            (final(self).online(), final(self).offline(), transitions@) == events_step(
                old(self).table(),
                old(self).online(),
                old(self).offline(),
                events@,
            ),
    {
        let mut transitions: Vec<DeviceTransition> = Vec::new();
        let mut i: usize = 0;
        assert(events@.take(0) =~= Seq::<DeviceEvent>::empty());
        while i < events.len()
            invariant
                i <= events@.len(),
                self.wf(),
                self.thermal_program == old(self).thermal_program,
                self.dryrun == old(self).dryrun,
                (self.online(), self.offline(), transitions@) == events_step(
                    old(self).table(),
                    old(self).online(),
                    old(self).offline(),
                    events@.take(i as int),
                ),
            decreases events@.len() - i,
        {
            proof {
                let next = events@.take(i + 1);
                assert(next.drop_last() =~= events@.take(i as int));
                assert(next.last() == events@[i as int]);
            }
            let transition = self.process_device_event(&events[i]);
            transitions.push(transition);
            i += 1;
        }
        assert(events@.take(i as int) =~= events@);
        transitions
    }
}

/// What a sequence of reports, taken in their order, makes of the devices
/// that are plugged in and of those that are not, and what each report made
/// of them.
pub open spec fn events_step(
    table: Seq<SymbolEntry>,
    online: Seq<SymbolId>,
    offline: Seq<SymbolId>,
    events: Seq<DeviceEvent>,
) -> (Seq<SymbolId>, Seq<SymbolId>, Seq<DeviceTransition>)
    decreases events.len(),
{
    if events.len() == 0 {
        (online, offline, Seq::empty())
    } else {
        let before = events_step(table, online, offline, events.drop_last());
        let last = event_step(
            table,
            before.0,
            before.1,
            event_action(events.last().action),
            event_tags(events.last().tags),
        );
        (last.0, last.1, before.2.push(last.2))
    }
}

} // verus!
