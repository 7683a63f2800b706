use fancontrol::config::ast::{OutputPriorization, OutputType, SensorType};
use fancontrol::config::{
    Symbol, SymbolDevice, SymbolOutput, SymbolSensor, SymbolTable, SymbolTableError,
};

fn device(name: &str) -> Symbol {
    Symbol::Device(SymbolDevice::new(
        name.to_string(),
        format!("{}_tag", name),
        "nct6775".to_string(),
        false,
    ))
}

fn sensor(name: &str, device: usize) -> Symbol {
    Symbol::Sensor(SymbolSensor::new(name.to_string(), SensorType::Termistor, 1, device))
}

fn output(name: &str, device: usize) -> Symbol {
    Symbol::Output(SymbolOutput::new(
        name.to_string(),
        device,
        OutputType::Pwm,
        2,
        OutputPriorization::Latest,
    ))
}

fn table() -> SymbolTable {
    let mut table = SymbolTable::new();
    assert!(matches!(table.insert("board".to_string(), device("board")), Ok(0)));
    assert!(matches!(table.insert("cpu".to_string(), sensor("cpu", 0)), Ok(1)));
    assert!(matches!(table.insert("fan".to_string(), output("fan", 0)), Ok(2)));
    assert!(matches!(table.insert("gpu".to_string(), device("gpu")), Ok(3)));
    table
}

#[test]
fn insert_numbers_the_symbols() {
    let table = table();
    assert_eq!(4, table.len());
    assert!(matches!(table.get(0), Some(Symbol::Device(d)) if d.name == "board"));
    assert!(matches!(table.get(1), Some(Symbol::Sensor(s)) if s.name == "cpu" && s.device == 0));
    assert!(matches!(table.get(2), Some(Symbol::Output(o)) if o.name == "fan" && o.index == 2));
    assert!(table.get(4).is_none());
}

#[test]
fn insert_refuses_a_name_twice() {
    let mut table = table();
    match table.insert("cpu".to_string(), device("cpu")) {
        Err(SymbolTableError::Clash(name)) => assert_eq!("cpu", name),
        _ => panic!("a clash was due"),
    }
    match table.insert("board".to_string(), device("board")) {
        Err(SymbolTableError::Clash(name)) => assert_eq!("board", name),
        _ => panic!("a clash was due"),
    }
    assert_eq!(4, table.len());
    assert!(matches!(table.get(1), Some(Symbol::Sensor(_))));
}

#[test]
fn require_finds_by_name() {
    let table = table();
    assert!(matches!(table.require("fan".to_string()), Ok(Symbol::Output(o)) if o.name == "fan"));
    match table.require("nothing".to_string()) {
        Err(SymbolTableError::NotFound(name)) => assert_eq!("nothing", name),
        _ => panic!("the name is not there"),
    }
    let empty = SymbolTable::new();
    assert!(matches!(empty.require("fan".to_string()), Err(SymbolTableError::NotFound(_))));
}

#[test]
fn require_type_checks_the_kind() {
    let table = table();
    assert!(matches!(table.require_type::<SymbolDevice>("board"), Ok(0)));
    assert!(matches!(table.require_type::<SymbolSensor>("cpu"), Ok(1)));
    assert!(matches!(table.require_type::<SymbolOutput>("fan"), Ok(2)));
    assert!(matches!(table.require_type::<SymbolDevice>("gpu"), Ok(3)));
    match table.require_type::<SymbolDevice>("fan") {
        Err(SymbolTableError::UnexpectedType { name, expected, found }) => {
            assert_eq!("fan", name);
            assert_eq!("device", expected);
            assert_eq!("output", found);
        }
        _ => panic!("the kind is wrong"),
    }
    match table.require_type::<SymbolSensor>("board") {
        Err(SymbolTableError::UnexpectedType { name, expected, found }) => {
            assert_eq!("board", name);
            assert_eq!("sensor", expected);
            assert_eq!("device", found);
        }
        _ => panic!("the kind is wrong"),
    }
    match table.require_type::<SymbolOutput>("cpu") {
        Err(SymbolTableError::UnexpectedType { name, expected, found }) => {
            assert_eq!("cpu", name);
            assert_eq!("output", expected);
            assert_eq!("sensor", found);
        }
        _ => panic!("the kind is wrong"),
    }
    match table.require_type::<SymbolOutput>("ghost") {
        Err(SymbolTableError::NotFound(name)) => assert_eq!("ghost", name),
        _ => panic!("the name is not there"),
    }
}

#[test]
fn get_all_symbols_of_type_lists_each_kind() {
    let table = table();
    assert_eq!(vec![0, 3], table.get_all_symbols_of_type::<SymbolDevice>());
    assert_eq!(vec![1], table.get_all_symbols_of_type::<SymbolSensor>());
    assert_eq!(vec![2], table.get_all_symbols_of_type::<SymbolOutput>());
    let empty = SymbolTable::new();
    assert!(empty.get_all_symbols_of_type::<SymbolDevice>().is_empty());
}

#[test]
fn symbols_name_their_kind() {
    assert_eq!("device", device("a").name());
    assert_eq!("sensor", sensor("a", 0).name());
    assert_eq!("output", output("a", 0).name());
}

#[test]
fn symbol_table_errors_in_words() {
    assert_eq!(
        "Symbol defined twice: cpu",
        SymbolTableError::Clash("cpu".to_string()).to_string()
    );
    assert_eq!(
        "Undefined reference to cpu",
        SymbolTableError::NotFound("cpu".to_string()).to_string()
    );
    assert_eq!(
        "Unexpected symbol type for `cpu`. Required 'device' but 'sensor' was found.",
        SymbolTableError::UnexpectedType {
            name: "cpu".to_string(),
            expected: "device".to_string(),
            found: "sensor".to_string(),
        }
        .to_string()
    );
}

#[test]
fn get_type_gives_the_typed_symbol() {
    let table = table();
    assert!(matches!(table.get_type::<SymbolDevice>(0), Some(d) if d.name == "board"));
    assert!(matches!(table.get_type::<SymbolSensor>(1), Some(s) if s.name == "cpu"));
    assert!(matches!(table.get_type::<SymbolOutput>(2), Some(o) if o.name == "fan"));
    assert!(table.get_type::<SymbolDevice>(1).is_none());
    assert!(table.get_type::<SymbolSensor>(0).is_none());
    assert!(table.get_type::<SymbolOutput>(4).is_none());
}
