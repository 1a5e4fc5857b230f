use mcenroe::colour::Colour;

#[test]
fn zsh_wrapping_is_exact() {
    assert_eq!(Colour::Bad.wrap(String::from("host"), true), "%F{red}host%f");
    assert_eq!(Colour::Good.wrap(String::from("host"), true), "%F{green}host%f");
    assert_eq!(Colour::Neutral.wrap(String::from("|"), true), "%F{blue}|%f");
}

#[test]
fn zsh_wrapping_of_empty_text() {
    assert_eq!(Colour::Good.wrap(String::new(), true), "%F{green}%f");
}

#[test]
fn ansi_wrapping_opens_with_the_colour_escape() {
    let red = Colour::Bad.wrap(String::from("down"), false);
    assert!(red.starts_with("\x1b[31mdown"));
    let green = Colour::Good.wrap(String::from("up"), false);
    assert!(green.starts_with("\x1b[32mup"));
    let blue = Colour::Neutral.wrap(String::from("|"), false);
    assert!(blue.starts_with("\x1b[34m|"));
}

#[test]
fn ansi_wrapping_changes_the_text() {
    let wrapped = Colour::Bad.wrap(String::from("name"), false);
    assert_ne!(wrapped, "name");
    assert!(wrapped.len() > "name".len());
}
