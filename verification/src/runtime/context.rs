use crate::config::checker::model::{ThermalProgram, When};
use crate::config::symboltable::{of_kind, Symbol, SymbolEntry, SymbolId, SymbolKind};
use vstd::prelude::*;
use vstd::string::*;

verus! {

/// The exit status of the process where it cannot start for a reason of its
/// own: the rule file cannot be read, or it is refused.
pub const EXIT_CODE_GENERAL_ERROR: i32 = 1;

/// The exit status of the process where a device that must be there was
/// unplugged while the system ran.
pub const EXIT_CODE_HOT_UNPLUG: i32 = 2;

/// The exit status of the process where a device that must be there is
/// still missing when the time granted at startup is up.
pub const EXIT_CODE_MISSING_DEVICE: i32 = 3;

/// A declared device that is plugged in. Whoever runs the system keeps the
/// live driver of the device, under the same symbol.
#[derive(Debug, Clone, Copy, PartialEq, Eq, Structural)]
pub struct OnlineDevice {
    pub symbol: SymbolId,
}

/// The state of a running system: its program, and for each declared device
/// whether it is plugged in.
#[derive(Debug)]
pub struct RunContext<'prog> {
    pub thermal_program: &'prog ThermalProgram,
    pub online_devices: Vec<OnlineDevice>,
    pub offline_devices: Vec<SymbolId>,
    pub dryrun: bool,
}

/// Whether `id` is a device that may not be unplugged while the system runs.
pub open spec fn mandatory(table: Seq<SymbolEntry>, id: SymbolId) -> bool {
    &&& id < table.len()
    &&& table[id as int].symbol matches Symbol::Device(device)
    &&& !device.allow_hotplug
}

/// The device that the sensor `sensor` sits on.
pub open spec fn sensor_device(table: Seq<SymbolEntry>, sensor: SymbolId) -> SymbolId
    recommends
        of_kind(table, sensor, SymbolKind::Sensor),
{
    table[sensor as int].symbol->Sensor_0.device
}

/// Whether a rule can be evaluated: its sensor is one, on a device that is
/// plugged in.
pub open spec fn eligible(table: Seq<SymbolEntry>, online: Seq<SymbolId>, rule: When) -> bool {
    &&& of_kind(table, rule.sensor, SymbolKind::Sensor)
    &&& online.contains(sensor_device(table, rule.sensor))
}

impl<'prog> RunContext<'prog> {
    /// The symbols of the program.
    pub open spec fn table(self) -> Seq<SymbolEntry> {
        self.thermal_program.symbol_table@
    }

    /// The devices that are plugged in, in the order in which they came.
    pub open spec fn online(self) -> Seq<SymbolId> {
        Seq::new(self.online_devices@.len(), |i: int| self.online_devices@[i].symbol)
    }

    /// The devices that are not plugged in, in the order in which they left.
    pub open spec fn offline(self) -> Seq<SymbolId> {
        self.offline_devices@
    }

    /// Every declared device is either plugged in or not, and nothing else is.
    pub open spec fn wf(self) -> bool {
        &&& self.thermal_program.wf()
        &&& (self.online() + self.offline()).no_duplicates()
        &&& forall|id: SymbolId|
            (self.online() + self.offline()).contains(id) <==> of_kind(
                self.table(),
                id,
                SymbolKind::Device,
            )
    }

    pub fn new(
        thermal_program: &'prog ThermalProgram,
        online_devices: Vec<OnlineDevice>,
        offline_devices: Vec<SymbolId>,
        dryrun: bool,
    ) -> (context: Self)
        ensures
            context == (RunContext { thermal_program, online_devices, offline_devices, dryrun }),
    {
        RunContext { thermal_program, online_devices, offline_devices, dryrun }
    }

    /// The state in which no device of the program is plugged in.
    pub fn unplugged(thermal_program: &'prog ThermalProgram, dryrun: bool) -> (context: Self)
        requires
            thermal_program.wf(),
        ensures
            context.wf(),
            context.thermal_program == thermal_program,
            context.dryrun == dryrun,
            context.online().len() == 0,
    {
        let offline_devices = thermal_program.symbol_table.get_all_symbols_of_type::<
            crate::config::symboltable::SymbolDevice,
        >();
        let context = RunContext {
            thermal_program,
            online_devices: Vec::new(),
            offline_devices,
            dryrun,
        };
        proof {
            assert(context.online() + context.offline() =~= context.offline());
            assert forall|i: int, j: int|
                0 <= i < context.offline().len() && 0 <= j < context.offline().len() && i
                    != j implies context.offline()[i] != context.offline()[j] by {
                if i < j {
                    assert(context.offline()[i] < context.offline()[j]);
                } else {
                    assert(context.offline()[j] < context.offline()[i]);
                }
            }
            assert forall|id: SymbolId|
                context.offline().contains(id) <==> of_kind(
                    context.table(),
                    id,
                    SymbolKind::Device,
                ) by {
                if of_kind(context.table(), id, SymbolKind::Device) {
                    assert(context.table()[id as int].symbol.kind() == SymbolKind::Device);
                }
            }
        }
        context
    }

    /// Where among the devices that are plugged in `device` stands.
    pub fn online_position(&self, device: SymbolId) -> (position: Option<usize>)
        ensures
            match position {
                Some(i) => i < self.online().len() && self.online()[i as int] == device,
                None => !self.online().contains(device),
            },
    {
        let mut i: usize = 0;
        while i < self.online_devices.len()
            invariant
                i <= self.online_devices@.len(),
                forall|j: int| 0 <= j < i ==> self.online()[j] != device,
            decreases self.online_devices@.len() - i,
        {
            if self.online_devices[i].symbol == device {
                return Some(i);
            }
            i += 1;
        }
        None
    }

    /// The first of the devices that are plugged in that is named `name`.
    pub fn find_device(&self, name: &str) -> (found: Option<&OnlineDevice>)
        ensures
            match found {
                Some(device) => exists|i: int|
                    {
                        &&& 0 <= i < self.online().len()
                        &&& #[trigger] self.online()[i] == device.symbol
                        &&& device_named(self.table(), device.symbol, name@)
                        &&& forall|j: int|
                            0 <= j < i ==> !device_named(
                                self.table(),
                                #[trigger] self.online()[j],
                                name@,
                            )
                    },
                None => forall|i: int|
                    0 <= i < self.online().len() ==> !device_named(
                        self.table(),
                        #[trigger] self.online()[i],
                        name@,
                    ),
            },
    {
        let wanted = String::from_str(name);
        let mut i: usize = 0;
        while i < self.online_devices.len()
            invariant
                i <= self.online_devices@.len(),
                wanted@ == name@,
                forall|j: int|
                    0 <= j < i ==> !device_named(self.table(), #[trigger] self.online()[j], name@),
            decreases self.online_devices@.len() - i,
        {
            let id = self.online_devices[i].symbol;
            match self.thermal_program.symbol_table.get(id) {
                Some(Symbol::Device(device)) => {
                    if device.name == wanted {
                        assert(self.online()[i as int] == id);
                        return Some(&self.online_devices[i]);
                    }
                },
                _ => {},
            }
            assert(self.online()[i as int] == id);
            i += 1;
        }
        None
    }

    /// Takes note that `device` was found plugged in.
    pub fn register_device(&mut self, device: OnlineDevice)
        requires
            old(self).wf(),
            old(self).offline().contains(device.symbol),
        ensures
            final(self).wf(),
            final(self).thermal_program == old(self).thermal_program,
            final(self).dryrun == old(self).dryrun,
            final(self).online() == old(self).online().push(device.symbol),
            final(self).offline() == old(self).offline().remove(
                old(self).offline().index_of(device.symbol),
            ),
    {
        let mut i: usize = 0;
        while i < self.offline_devices.len()
            invariant
                i <= self.offline_devices@.len(),
                *self == *old(self),
                self.offline().contains(device.symbol),
                forall|j: int| 0 <= j < i ==> self.offline()[j] != device.symbol,
            ensures
                i < self.offline_devices@.len(),
                self.offline()[i as int] == device.symbol,
            decreases self.offline_devices@.len() - i,
        {
            if self.offline_devices[i] == device.symbol {
                break ;
            }
            i += 1;
        }
        proof {
            let states = self.online() + self.offline();
            assert(states[self.online().len() + i] == device.symbol);
            let k = self.offline().index_of(device.symbol);
            assert(states[self.online().len() + k] == device.symbol);
        }
        self.plug_in(i);
    }

    /// Moves the device at position `index` of those that are not plugged in
    /// to the end of those that are.
    pub fn plug_in(&mut self, index: usize) -> (device: SymbolId)
        requires
            old(self).wf(),
            index < old(self).offline().len(),
        ensures
            final(self).wf(),
            final(self).thermal_program == old(self).thermal_program,
            final(self).dryrun == old(self).dryrun,
            device == old(self).offline()[index as int],
            final(self).online() == old(self).online().push(device),
            final(self).offline() == old(self).offline().remove(index as int),
    {
        let device = self.offline_devices.remove(index);
        self.online_devices.push(OnlineDevice { symbol: device });
        proof {
            assert(self.online() =~= old(self).online().push(device));
            assert(self.offline() =~= old(self).offline().remove(index as int));
            lemma_moved(old(self).online(), old(self).offline(), index as int);
            let before = old(self).online() + old(self).offline();
            let after = self.online() + self.offline();
            assert(after == old(self).online().push(device) + old(self).offline().remove(
                index as int,
            ));
            assert(self.table() == old(self).table());
            assert forall|id: SymbolId| after.contains(id) <==> of_kind(
                self.table(),
                id,
                SymbolKind::Device,
            ) by {
                assert(after.contains(id) <==> before.contains(id));
                assert(before.contains(id) <==> of_kind(old(self).table(), id, SymbolKind::Device));
            }
        }
        device
    }

    /// Moves the device at position `index` of those that are plugged in to
    /// the end of those that are not.
    pub fn unplug(&mut self, index: usize) -> (device: SymbolId)
        requires
            old(self).wf(),
            index < old(self).online().len(),
        ensures
            final(self).wf(),
            final(self).thermal_program == old(self).thermal_program,
            final(self).dryrun == old(self).dryrun,
            device == old(self).online()[index as int],
            final(self).online() == old(self).online().remove(index as int),
            final(self).offline() == old(self).offline().push(device),
    {
        let device = self.online_devices.remove(index).symbol;
        self.offline_devices.push(device);
        proof {
            assert(self.online() =~= old(self).online().remove(index as int));
            assert(self.offline() =~= old(self).offline().push(device));
            lemma_moved_back(old(self).online(), old(self).offline(), index as int);
            let before = old(self).online() + old(self).offline();
            let after = self.online() + self.offline();
            assert(after == old(self).online().remove(index as int) + old(self).offline().push(
                device,
            ));
            assert(self.table() == old(self).table());
            assert forall|id: SymbolId| after.contains(id) <==> of_kind(
                self.table(),
                id,
                SymbolKind::Device,
            ) by {
                assert(after.contains(id) <==> before.contains(id));
                assert(before.contains(id) <==> of_kind(old(self).table(), id, SymbolKind::Device));
            }
        }
        device
    }

    /// The devices that are not plugged in although they must be, in the
    /// order in which they left.
    pub fn filter_non_hotpluggable_offline_devices(&self) -> (missing: Vec<SymbolId>)
        ensures
            missing@ == self.offline().filter(|id: SymbolId| mandatory(self.table(), id)),
    {
        let ghost keep = |id: SymbolId| mandatory(self.table(), id);
        let mut missing: Vec<SymbolId> = Vec::new();
        let mut i: usize = 0;
        assert(self.offline().take(0) =~= Seq::<SymbolId>::empty());
        while i < self.offline_devices.len()
            invariant
                i <= self.offline_devices@.len(),
                keep == |id: SymbolId| mandatory(self.table(), id),
                missing@ == self.offline().take(i as int).filter(keep),
            decreases self.offline_devices@.len() - i,
        {
            let id = self.offline_devices[i];
            let must = match self.thermal_program.symbol_table.get(id) {
                Some(Symbol::Device(device)) => !device.allow_hotplug,
                _ => false,
            };
            proof {
                let next = self.offline().take(i + 1);
                assert(next.drop_last() =~= self.offline().take(i as int));
                assert(next.last() == id);
                self.offline().take(i as int).lemma_filter_push(id, keep);
                assert(next =~= self.offline().take(i as int).push(id));
            }
            if must {
                missing.push(id);
            }
            i += 1;
        }
        assert(self.offline().take(i as int) =~= self.offline());
        missing
    }

    pub fn any_non_hotpluggable_device_offline(&self) -> (any: bool)
        ensures
            any <==> exists|i: int|
                0 <= i < self.offline().len() && mandatory(
                    self.table(),
                    #[trigger] self.offline()[i],
                ),
    {
        let mut i: usize = 0;
        while i < self.offline_devices.len()
            invariant
                i <= self.offline_devices@.len(),
                forall|j: int| 0 <= j < i ==> !mandatory(self.table(), #[trigger] self.offline()[j]),
            decreases self.offline_devices@.len() - i,
        {
            let id = self.offline_devices[i];
            match self.thermal_program.symbol_table.get(id) {
                Some(Symbol::Device(device)) => {
                    if !device.allow_hotplug {
                        assert(mandatory(self.table(), self.offline()[i as int]));
                        return true;
                    }
                },
                _ => {},
            }
            i += 1;
        }
        false
    }
}

/// `id` is a device, declared under the name `name`.
pub open spec fn device_named(table: Seq<SymbolEntry>, id: SymbolId, name: Seq<char>) -> bool {
    &&& id < table.len()
    &&& table[id as int].symbol matches Symbol::Device(device)
    &&& device.name@ == name
}

/// Moving an entry from the second list to the end of the first keeps what
/// the two lists hold together, and keeps it free of duplicates.
pub proof fn lemma_moved(first: Seq<SymbolId>, second: Seq<SymbolId>, index: int)
    requires
        0 <= index < second.len(),
    ensures
        forall|id: SymbolId|
            (first.push(second[index]) + second.remove(index)).contains(id) <==> (first
                + second).contains(id),
        (first + second).no_duplicates() ==> (first.push(second[index]) + second.remove(
            index,
        )).no_duplicates(),
{
    let before = first + second;
    let after = first.push(second[index]) + second.remove(index);
    let n = first.len() as int;
    assert forall|i: int| 0 <= i < after.len() implies after[i] == before[position_before(
        n,
        index,
        i,
    )] by {}
    assert forall|p: int| 0 <= p < before.len() implies before[p] == after[position_after(
        n,
        index,
        p,
    )] by {}
    assert forall|id: SymbolId| after.contains(id) <==> before.contains(id) by {
        if after.contains(id) {
            let i = choose|i: int| 0 <= i < after.len() && after[i] == id;
            assert(before[position_before(n, index, i)] == id);
        }
        if before.contains(id) {
            let p = choose|p: int| 0 <= p < before.len() && before[p] == id;
            assert(after[position_after(n, index, p)] == id);
        }
    }
    if before.no_duplicates() {
        assert forall|i: int, j: int|
            0 <= i < after.len() && 0 <= j < after.len() && i != j implies after[i]
            != after[j] by {
            assert(after[i] == before[position_before(n, index, i)]);
            assert(after[j] == before[position_before(n, index, j)]);
        }
    }
}

/// Where the entry at position `i`, after a move from position `index` of the
/// second list to the end of a first list of length `n`, stood before.
pub open spec fn position_before(n: int, index: int, i: int) -> int {
    if i < n {
        i
    } else if i == n {
        n + index
    } else if i <= n + index {
        i - 1
    } else {
        i
    }
}

/// Where the entry at position `p` stands after such a move.
pub open spec fn position_after(n: int, index: int, p: int) -> int {
    if p < n {
        p
    } else if p == n + index {
        n
    } else if p < n + index {
        p + 1
    } else {
        p
    }
}

/// Moving an entry from the first list to the end of the second keeps what
/// the two lists hold together, and keeps it free of duplicates.
pub proof fn lemma_moved_back(first: Seq<SymbolId>, second: Seq<SymbolId>, index: int)
    requires
        0 <= index < first.len(),
    ensures
        forall|id: SymbolId|
            (first.remove(index) + second.push(first[index])).contains(id) <==> (first
                + second).contains(id),
        (first + second).no_duplicates() ==> (first.remove(index) + second.push(
            first[index],
        )).no_duplicates(),
{
    let before = first + second;
    let after = first.remove(index) + second.push(first[index]);
    let last = after.len() - 1;
    let back = |i: int|
        if i == last {
            index
        } else if i < index {
            i
        } else {
            i + 1
        };
    let forth = |p: int|
        if p == index {
            last
        } else if p < index {
            p
        } else {
            p - 1
        };
    assert forall|i: int| 0 <= i < after.len() implies after[i] == before[back(i)] by {}
    assert forall|p: int| 0 <= p < before.len() implies before[p] == after[forth(p)] by {}
    assert forall|id: SymbolId| after.contains(id) <==> before.contains(id) by {
        if after.contains(id) {
            let i = choose|i: int| 0 <= i < after.len() && after[i] == id;
            assert(before[back(i)] == id);
        }
        if before.contains(id) {
            let p = choose|p: int| 0 <= p < before.len() && before[p] == id;
            assert(after[forth(p)] == id);
        }
    }
    if before.no_duplicates() {
        assert forall|i: int, j: int|
            0 <= i < after.len() && 0 <= j < after.len() && i != j implies after[i]
            != after[j] by {
            assert(after[i] == before[back(i)]);
            assert(after[j] == before[back(j)]);
        }
    }
}

} // verus!
