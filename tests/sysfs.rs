use simple_init_boot::sysfs::{SysfsEntryIter, SysfsEntryParsable};

#[derive(Debug, PartialEq)]
struct Number(u32);

impl SysfsEntryParsable<Number> for Number {
    fn parse(line: &str) -> Option<Number> {
        line.parse::<u32>().ok().map(Number)
    }
}

#[test]
fn entries_skip_unparsable_lines() {
    let mut it: SysfsEntryIter<Number> = SysfsEntryIter::from_string("1\nx\n  22  \n\n3");
    assert_eq!(it.next(), Some(Number(1)));
    assert_eq!(it.next(), Some(Number(22)));
    assert_eq!(it.next(), Some(Number(3)));
    assert_eq!(it.next(), None);
    assert_eq!(it.next(), None);
}

#[test]
fn entries_of_empty_text() {
    let mut it: SysfsEntryIter<Number> = SysfsEntryIter::from_string("");
    assert_eq!(it.next(), None);
}

#[test]
fn entries_trim_carriage_returns_and_tabs() {
    let mut it: SysfsEntryIter<Number> = SysfsEntryIter::from_string("\t7\r\n8\n");
    assert_eq!(it.next(), Some(Number(7)));
    assert_eq!(it.next(), Some(Number(8)));
    assert_eq!(it.next(), None);
}

#[test]
fn entries_trim_unicode_whitespace() {
    let mut it: SysfsEntryIter<Number> = SysfsEntryIter::from_string("\u{3000}5\u{a0}\n\u{2003}6");
    assert_eq!(it.next(), Some(Number(5)));
    assert_eq!(it.next(), Some(Number(6)));
    assert_eq!(it.next(), None);
}
