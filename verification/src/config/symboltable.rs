use super::ast;
use vstd::prelude::*;
use vstd::string::*;

verus! {

/// The position of a symbol in its table: symbols are numbered in the order in
/// which they were inserted, and a symbol refers to another by this number.
pub type SymbolId = usize;

/// The three kinds of symbol.
#[derive(Debug, Clone, Copy, PartialEq, Eq, Structural)]
pub enum SymbolKind {
    Device,
    Sensor,
    Output,
}

/// The word by which diagnostics call a kind of symbol.
pub open spec fn kind_name(kind: SymbolKind) -> Seq<char> {
    match kind {
        SymbolKind::Device => "device"@,
        SymbolKind::Sensor => "sensor"@,
        SymbolKind::Output => "output"@,
    }
}

pub enum SymbolTableError {
    Clash(String),
    NotFound(String),
    UnexpectedType { name: String, expected: String, found: String },
}

/// A `SymbolTableError` with its texts as character sequences.
pub enum SymbolTableErrorView {
    Clash(Seq<char>),
    NotFound(Seq<char>),
    UnexpectedType { name: Seq<char>, expected: Seq<char>, found: Seq<char> },
}

impl SymbolTableErrorView {
    /// The diagnostic that reports the error.
    pub open spec fn message(self) -> Seq<char> {
        match self {
            SymbolTableErrorView::Clash(name) => "Symbol defined twice: "@ + name,
            SymbolTableErrorView::NotFound(name) => "Undefined reference to "@ + name,
            SymbolTableErrorView::UnexpectedType { name, expected, found } => {
                "Unexpected symbol type for `"@ + name + "`. Required '"@ + expected + "' but '"@
                    + found + "' was found."@
            },
        }
    }
}

impl View for SymbolTableError {
    type V = SymbolTableErrorView;

    open spec fn view(&self) -> SymbolTableErrorView {
        match self {
            SymbolTableError::Clash(name) => SymbolTableErrorView::Clash(name@),
            SymbolTableError::NotFound(name) => SymbolTableErrorView::NotFound(name@),
            SymbolTableError::UnexpectedType { name, expected, found } => {
                SymbolTableErrorView::UnexpectedType {
                    name: name@,
                    expected: expected@,
                    found: found@,
                }
            },
        }
    }
}

impl SymbolTableError {
    /// The diagnostic that reports the error.
    pub fn to_string(&self) -> (text: String)
        ensures
            text@ == self@.message(),
    {
        match self {
            SymbolTableError::Clash(name) => {
                let mut text = String::from_str("Symbol defined twice: ");
                text.append(name.as_str());
                text
            },
            SymbolTableError::NotFound(name) => {
                let mut text = String::from_str("Undefined reference to ");
                text.append(name.as_str());
                text
            },
            SymbolTableError::UnexpectedType { name, expected, found } => {
                let mut text = String::from_str("Unexpected symbol type for `");
                text.append(name.as_str());
                text.append("`. Required '");
                text.append(expected.as_str());
                text.append("' but '");
                text.append(found.as_str());
                text.append("' was found.");
                text
            },
        }
    }
}

pub type SymbolTableResult<T> = Result<T, SymbolTableError>;

/// A declared device.
#[derive(Debug)]
pub struct SymbolDevice {
    pub name: String,
    /// The tag by which the hardware layer recognises the device.
    pub tag: String,
    /// The key of the device's driver in the driver registry.
    pub driver: String,
    /// Whether the device may be unplugged while the system runs.
    pub allow_hotplug: bool,
}

/// A declared sensor.
#[derive(Debug)]
pub struct SymbolSensor {
    pub name: String,
    pub sensor_type: ast::SensorType,
    pub index: i32,
    /// The device that the sensor sits on.
    pub device: SymbolId,
}

/// A declared output.
#[derive(Debug)]
pub struct SymbolOutput {
    pub name: String,
    /// The device that the output sits on.
    pub device: SymbolId,
    pub output_type: ast::OutputType,
    pub index: u8,
    pub priorization: ast::OutputPriorization,
}

impl SymbolDevice {
    pub fn new(name: String, tag: String, driver: String, allow_hotplug: bool) -> (device: Self)
        ensures
            device == (SymbolDevice { name, tag, driver, allow_hotplug }),
    {
        SymbolDevice { name, tag, driver, allow_hotplug }
    }
}

impl SymbolSensor {
    pub fn new(name: String, sensor_type: ast::SensorType, index: i32, device: SymbolId) -> (sensor:
        Self)
        ensures
            sensor == (SymbolSensor { name, sensor_type, index, device }),
    {
        SymbolSensor { name, sensor_type, index, device }
    }
}

impl SymbolOutput {
    pub fn new(
        name: String,
        device: SymbolId,
        output_type: ast::OutputType,
        index: u8,
        priorization: ast::OutputPriorization,
    ) -> (output: Self)
        ensures
            output == (SymbolOutput { name, device, output_type, index, priorization }),
    {
        SymbolOutput { name, device, output_type, index, priorization }
    }
}

#[derive(Debug)]
pub enum Symbol {
    Device(SymbolDevice),
    Sensor(SymbolSensor),
    Output(SymbolOutput),
}

impl Symbol {
    /// The kind of the symbol.
    pub open spec fn kind(self) -> SymbolKind {
        match self {
            Symbol::Device(_) => SymbolKind::Device,
            Symbol::Sensor(_) => SymbolKind::Sensor,
            Symbol::Output(_) => SymbolKind::Output,
        }
    }

    /// The name that the symbol itself holds.
    pub open spec fn own_name(self) -> Seq<char> {
        match self {
            Symbol::Device(device) => device.name@,
            Symbol::Sensor(sensor) => sensor.name@,
            Symbol::Output(output) => output.name@,
        }
    }

    /// The word by which diagnostics call the symbol's kind.
    pub fn name(&self) -> (name: &'static str)
        ensures
            name@ == kind_name(self.kind()),
    {
        match self {
            Symbol::Device(_) => "device",
            Symbol::Sensor(_) => "sensor",
            Symbol::Output(_) => "output",
        }
    }
}

/// One kind of symbol, as a type: what a table entry must hold to be of the
/// kind, and what it then yields.
pub trait SymbolType {
    type Value;

    /// The kind that the type stands for.
    spec fn kind() -> SymbolKind;

    /// What an entry of the kind holds.
    spec fn value_of(s: Symbol) -> Self::Value;

    fn name() -> (name: &'static str)
        ensures
            name@ == kind_name(Self::kind()),
    ;

    fn match_entry(s: &Symbol) -> (entry: Option<&Self::Value>)
        ensures
            entry is Some <==> s.kind() == Self::kind(),
            entry matches Some(value) ==> *value == Self::value_of(*s),
    ;
}

impl SymbolType for SymbolDevice {
    type Value = SymbolDevice;

    open spec fn kind() -> SymbolKind {
        SymbolKind::Device
    }

    open spec fn value_of(s: Symbol) -> SymbolDevice {
        s->Device_0
    }

    fn name() -> (name: &'static str) {
        "device"
    }

    fn match_entry(s: &Symbol) -> (entry: Option<&SymbolDevice>) {
        match s {
            Symbol::Device(d) => Some(d),
            _ => None,
        }
    }
}

impl SymbolType for SymbolSensor {
    type Value = SymbolSensor;

    open spec fn kind() -> SymbolKind {
        SymbolKind::Sensor
    }

    open spec fn value_of(s: Symbol) -> SymbolSensor {
        s->Sensor_0
    }

    fn name() -> (name: &'static str) {
        "sensor"
    }

    fn match_entry(s: &Symbol) -> (entry: Option<&SymbolSensor>) {
        match s {
            Symbol::Sensor(s) => Some(s),
            _ => None,
        }
    }
}

impl SymbolType for SymbolOutput {
    type Value = SymbolOutput;

    open spec fn kind() -> SymbolKind {
        SymbolKind::Output
    }

    open spec fn value_of(s: Symbol) -> SymbolOutput {
        s->Output_0
    }

    fn name() -> (name: &'static str) {
        "output"
    }

    fn match_entry(s: &Symbol) -> (entry: Option<&SymbolOutput>) {
        match s {
            Symbol::Output(o) => Some(o),
            _ => None,
        }
    }
}

/// A table entry as contracts see it: the name under which the symbol was
/// inserted, and the symbol.
pub struct SymbolEntry {
    pub name: Seq<char>,
    pub symbol: Symbol,
}

/// No name occurs twice among `entries`.
pub open spec fn unique_names(entries: Seq<SymbolEntry>) -> bool {
    forall|i: int, j: int|
        0 <= i < j < entries.len() ==> (#[trigger] entries[i]).name != (#[trigger] entries[j]).name
}

/// Some entry of `entries` has the name `name`.
pub open spec fn defined(entries: Seq<SymbolEntry>, name: Seq<char>) -> bool {
    exists|i: int| 0 <= i < entries.len() && (#[trigger] entries[i]).name == name
}

/// The position of the entry named `name`, if there is one. Where names are
/// unique there is at most one such position.
pub open spec fn resolve(entries: Seq<SymbolEntry>, name: Seq<char>) -> Option<int> {
    if defined(entries, name) {
        Some(choose|i: int| 0 <= i < entries.len() && (#[trigger] entries[i]).name == name)
    } else {
        None
    }
}

/// What looking up `name` and asking for a symbol of kind `kind` yields: the
/// position of the symbol, or the reason why there is none.
pub open spec fn resolve_kind(entries: Seq<SymbolEntry>, name: Seq<char>, kind: SymbolKind) -> Result<
    int,
    SymbolTableErrorView,
> {
    match resolve(entries, name) {
        None => Err(SymbolTableErrorView::NotFound(name)),
        Some(i) => if entries[i].symbol.kind() == kind {
            Ok(i)
        } else {
            Err(
                SymbolTableErrorView::UnexpectedType {
                    name,
                    expected: kind_name(kind),
                    found: kind_name(entries[i].symbol.kind()),
                },
            )
        },
    }
}

/// Where names are unique, a position whose entry has the name is the one
/// that `resolve` gives.
pub proof fn lemma_resolve_unique(entries: Seq<SymbolEntry>, name: Seq<char>, i: int)
    requires
        unique_names(entries),
        0 <= i < entries.len(),
        entries[i].name == name,
    ensures
        resolve(entries, name) == Some(i),
{
    let j = choose|j: int| 0 <= j < entries.len() && (#[trigger] entries[j]).name == name;
    if j < i {
        assert(entries[j].name != entries[i].name);
    } else if i < j {
        assert(entries[i].name != entries[j].name);
    }
}

/// The symbols of a rule file under their names, in the order in which they
/// were declared. No name is held twice, and no entry is ever removed or
/// replaced. The entries are kept as a list, since a symbol refers to another
/// by its position in it; a name is looked up by going through the list.
#[derive(Debug)]
pub struct SymbolTable {
    names: Vec<String>,
    symbols: Vec<Symbol>,
}

impl View for SymbolTable {
    type V = Seq<SymbolEntry>;

    closed spec fn view(&self) -> Seq<SymbolEntry> {
        entries_of(self.names@, self.symbols@)
    }
}

/// The entries that a list of names and a list of symbols stand for.
spec fn entries_of(names: Seq<String>, symbols: Seq<Symbol>) -> Seq<SymbolEntry> {
    Seq::new(symbols.len(), |i: int| SymbolEntry { name: names[i]@, symbol: symbols[i] })
}

impl SymbolTable {
    #[verifier::type_invariant]
    spec fn well_formed(self) -> bool {
        &&& self.names@.len() == self.symbols@.len()
        &&& unique_names(self@)
    }

    pub fn new() -> (table: SymbolTable)
        ensures
            table@ == Seq::<SymbolEntry>::empty(),
    {
        SymbolTable { names: Vec::new(), symbols: Vec::new() }
    }

    /// The number of symbols in the table.
    pub fn len(&self) -> (len: usize)
        ensures
            len == self@.len(),
            unique_names(self@),
    {
        proof {
            use_type_invariant(self);
        }
        self.symbols.len()
    }

    /// The position of the entry named `name`.
    fn find(&self, name: &String) -> (found: Option<usize>)
        ensures
            unique_names(self@),
            match found {
                Some(i) => resolve(self@, name@) == Some(i as int),
                None => resolve(self@, name@) is None,
            },
    {
        proof {
            use_type_invariant(self);
        }
        let mut i: usize = 0;
        while i < self.names.len()
            invariant
                i <= self.names@.len(),
                self.names@.len() == self.symbols@.len(),
                unique_names(self@),
                forall|j: int| 0 <= j < i ==> (#[trigger] self@[j]).name != name@,
            decreases self.names@.len() - i,
        {
            if self.names[i] == *name {
                proof {
                    lemma_resolve_unique(self@, name@, i as int);
                }
                return Some(i);
            }
            i += 1;
        }
        None
    }

    /// Adds `symbol` under `name`, unless the name is taken. The new symbol's
    /// position is the number of symbols that the table held before.
    pub fn insert(&mut self, name: String, symbol: Symbol) -> (inserted: SymbolTableResult<SymbolId>)
        ensures
            unique_names(old(self)@),
            unique_names(final(self)@),
            match inserted {
                Ok(id) => {
                    &&& !defined(old(self)@, name@)
                    &&& id == old(self)@.len()
                    &&& final(self)@ == old(self)@.push(SymbolEntry { name: name@, symbol })
                },
                Err(e) => {
                    &&& defined(old(self)@, name@)
                    &&& e@ == SymbolTableErrorView::Clash(name@)
                    &&& final(self)@ == old(self)@
                },
            },
    {
        match self.find(&name) {
            Some(_) => Err(SymbolTableError::Clash(name)),
            None => {
                // The table is taken apart and put together again, so that it
                // is never seen with one list longer than the other.
                let mut taken = SymbolTable::new();
                core::mem::swap(self, &mut taken);
                proof {
                    use_type_invariant(&taken);
                }
                let SymbolTable { mut names, mut symbols } = taken;
                let id = symbols.len();
                names.push(name);
                symbols.push(symbol);
                let ghost entry = SymbolEntry { name: name@, symbol };
                assert(entries_of(names@, symbols@) =~= old(self)@.push(entry));
                assert(unique_names(old(self)@.push(entry))) by {
                    assert forall|i: int, j: int| 0 <= i < j < old(self)@.len() + 1 implies (
                    #[trigger] old(self)@.push(entry)[i]).name != (#[trigger] old(self)@.push(
                        entry,
                    )[j]).name by {
                        if j == old(self)@.len() {
                            assert(old(self)@[i].name != name@);
                        } else {
                            assert(old(self)@[i].name != old(self)@[j].name);
                        }
                    }
                }
                *self = SymbolTable { names, symbols };
                Ok(id)
            },
        }
    }

    /// The symbol named `name`.
    pub fn require(&self, name: String) -> (required: SymbolTableResult<&Symbol>)
        ensures
            unique_names(self@),
            match resolve(self@, name@) {
                Some(i) => required matches Ok(symbol) && *symbol == self@[i].symbol,
                None => required matches Err(e) && e@ == SymbolTableErrorView::NotFound(name@),
            },
    {
        match self.find(&name) {
            Some(i) => Ok(&self.symbols[i]),
            None => Err(SymbolTableError::NotFound(name)),
        }
    }

    /// The position of the symbol named `name`, which must be of the kind `A`.
    pub fn require_type<A: SymbolType>(&self, name: &str) -> (required: SymbolTableResult<SymbolId>)
        ensures
            unique_names(self@),
            match resolve_kind(self@, name@, A::kind()) {
                Ok(i) => required matches Ok(id) && id == i,
                Err(reason) => required matches Err(e) && e@ == reason,
            },
    {
        let owned = String::from_str(name);
        match self.find(&owned) {
            None => Err(SymbolTableError::NotFound(owned)),
            Some(i) => {
                let symbol = &self.symbols[i];
                match A::match_entry(symbol) {
                    Some(_) => Ok(i),
                    None => Err(
                        SymbolTableError::UnexpectedType {
                            name: owned,
                            expected: String::from_str(A::name()),
                            found: String::from_str(symbol.name()),
                        },
                    ),
                }
            },
        }
    }

    /// The symbol at position `id`.
    pub fn get(&self, id: SymbolId) -> (symbol: Option<&Symbol>)
        ensures
            unique_names(self@),
            match symbol {
                Some(s) => id < self@.len() && *s == self@[id as int].symbol,
                None => id >= self@.len(),
            },
    {
        proof {
            use_type_invariant(self);
        }
        if id < self.symbols.len() {
            Some(&self.symbols[id])
        } else {
            None
        }
    }

    /// What the symbol at position `id` holds, if it is of the kind `A`.
    pub fn get_type<A: SymbolType>(&self, id: SymbolId) -> (value: Option<&A::Value>)
        ensures
            unique_names(self@),
            value is Some <==> of_kind(self@, id, A::kind()),
            value matches Some(v) ==> *v == A::value_of(self@[id as int].symbol),
    {
        match self.get(id) {
            Some(symbol) => A::match_entry(symbol),
            None => None,
        }
    }

    /// The positions of all symbols of the kind `A`, in ascending order.
    pub fn get_all_symbols_of_type<A: SymbolType>(&self) -> (ids: Vec<SymbolId>)
        ensures
            forall|k: int| 0 <= k < ids@.len() ==> of_kind(self@, #[trigger] ids@[k], A::kind()),
            forall|i: int|
                0 <= i < self@.len() && (#[trigger] self@[i]).symbol.kind() == A::kind()
                    ==> ids@.contains(i as usize),
            forall|k: int, l: int| 0 <= k < l < ids@.len() ==> ids@[k] < ids@[l],
    {
        proof {
            use_type_invariant(self);
        }
        let mut ids: Vec<SymbolId> = Vec::new();
        let mut i: usize = 0;
        while i < self.symbols.len()
            invariant
                i <= self.symbols@.len(),
                self.names@.len() == self.symbols@.len(),
                forall|k: int| 0 <= k < ids@.len() ==> of_kind(self@, #[trigger] ids@[k], A::kind()),
                forall|k: int| 0 <= k < ids@.len() ==> ids@[k] < i,
                forall|j: int|
                    0 <= j < i && (#[trigger] self@[j]).symbol.kind() == A::kind()
                        ==> ids@.contains(j as usize),
                forall|k: int, l: int| 0 <= k < l < ids@.len() ==> ids@[k] < ids@[l],
            decreases self.symbols@.len() - i,
        {
            if A::match_entry(&self.symbols[i]).is_some() {
                let ghost before = ids@;
                ids.push(i);
                assert(ids@[before.len() as int] == i);
                assert forall|j: int|
                    0 <= j < i + 1 && (#[trigger] self@[j]).symbol.kind() == A::kind() implies ids@.contains(
                    j as usize,
                ) by {
                    if j < i {
                        let k = choose|k: int| 0 <= k < before.len() && before[k] == j as usize;
                        assert(ids@[k] == j as usize);
                    }
                }
            }
            i += 1;
        }
        ids
    }
}

/// `id` is the position of a symbol of the kind `kind`.
pub open spec fn of_kind(entries: Seq<SymbolEntry>, id: SymbolId, kind: SymbolKind) -> bool {
    id < entries.len() && entries[id as int].symbol.kind() == kind
}

} // verus!
