/// A caller-side identifier type: states are compared by the canonical name
/// such a type produces.
enum TestTag {
    Opened,
    Closed,
}

impl TestTag {
    fn text(&self) -> &'static str {
        match self {
            TestTag::Opened => "Opened",
            TestTag::Closed => "Closed",
        }
    }
}

impl std::fmt::Display for TestTag {
    fn fmt(&self, f: &mut std::fmt::Formatter<'_>) -> std::fmt::Result {
        f.write_str(self.text())
    }
}

impl AsRef<str> for TestTag {
    fn as_ref(&self) -> &str {
        self.text()
    }
}

#[test]
fn test_enum_display() {
    assert_eq!("Opened", TestTag::Opened.to_string());
    assert_eq!("Closed", TestTag::Closed.to_string());
}

#[test]
fn test_enum_as_ref() {
    assert_eq!("Opened", TestTag::Opened.as_ref());
    assert_eq!("Closed", TestTag::Closed.as_ref());
}
