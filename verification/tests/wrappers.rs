use hyper_serde::{De, Ser, Serde};

#[test]
fn de_gives_back_its_value() {
    let de = De::new(vec![1u8, 2, 3]);
    assert_eq!(de.into_inner(), vec![1u8, 2, 3]);
}

#[test]
fn ser_plain_and_pretty() {
    let value = String::from("x");
    let plain = Ser::new(&value);
    assert!(!plain.pretty());
    assert_eq!(plain.get(), &value);
    let pretty = Ser::new_pretty(&value);
    assert!(pretty.pretty());
    assert_eq!(pretty.get(), &value);
}

#[test]
fn serde_into_inner() {
    let s = Serde(42u32);
    assert!(s.clone() == Serde(42u32));
    assert_eq!(s.into_inner(), 42);
}

#[test]
fn serde_derefs_to_inner() {
    let s = Serde(String::from("abc"));
    assert_eq!(s.len(), 3);
    assert_eq!(&*s, "abc");
}
