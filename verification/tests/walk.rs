use fido2kpxc::walk::{ButtonStep, ButtonWalk, TextWalk, DEPTH, LIMIT};

struct Element {
    role: &'static str,
    text: String,
    children: Vec<usize>,
}

fn element(role: &'static str, text: &str, children: &[usize]) -> Element {
    Element {
        role,
        text: text.to_owned(),
        children: children.to_vec(),
    }
}

fn texts(tree: &[Element]) -> Vec<String> {
    let mut walk = TextWalk::new(0);
    while let Some(i) = walk.next() {
        let found: &Element = &tree[i];
        walk.found(found.role, found.text.clone(), found.children.clone());
    }
    walk.into_texts()
}

fn button(tree: &[Element], title: &str) -> Option<usize> {
    let mut walk = ButtonWalk::new(tree[0].children.clone());
    while let Some(i) = walk.next() {
        let found: &Element = &tree[i];
        match walk.read(found.role, &found.text, title) {
            ButtonStep::Found => return Some(i),
            ButtonStep::Descend => walk.descend(found.children.clone()),
            ButtonStep::Skip => {}
        }
    }
    None
}

fn window() -> Vec<Element> {
    vec![
        element("AXWindow", "w", &[1, 4, 5]),
        element("AXGroup", "g", &[2, 3]),
        element("AXStaticText", "first", &[]),
        element("AXButton", "Unlock", &[]),
        element("AXStaticText", "second", &[6]),
        element("AXButton", "Unlock", &[]),
        element("AXStaticText", "", &[]),
    ]
}

#[test]
fn texts_come_depth_first() {
    assert_eq!(texts(&window()), ["first", "second", ""]);
    assert_eq!(texts(&[element("AXStaticText", "only", &[])]), ["only"]);
}

#[test]
fn the_first_button_is_found() {
    assert_eq!(button(&window(), "Unlock"), Some(3));
    assert_eq!(button(&window(), "Cancel"), None);
    // The window itself does not count.
    assert_eq!(button(&[element("AXButton", "Unlock", &[])], "Unlock"), None);
}

#[test]
fn a_walk_stops_after_its_limit() {
    let count = LIMIT + 50;
    let mut wide = vec![element("AXWindow", "w", &(1..=count).collect::<Vec<_>>())];
    for i in 1..=count {
        wide.push(element("AXStaticText", &i.to_string(), &[]));
    }
    let found = texts(&wide);
    assert_eq!(found.len(), LIMIT - 1);
    assert_eq!(found.last().unwrap(), &(LIMIT - 1).to_string());
}

#[test]
fn a_walk_goes_only_so_deep() {
    let chain = |length: usize| {
        let mut deep: Vec<Element> = (0..length)
            .map(|i| element("AXStaticText", &i.to_string(), &[i + 1]))
            .collect();
        deep.push(element("AXButton", "Unlock", &[]));
        deep
    };
    assert_eq!(texts(&chain(40)).len(), DEPTH + 1);
    assert_eq!(button(&chain(DEPTH + 1), "Unlock"), Some(DEPTH + 1));
    assert_eq!(button(&chain(DEPTH + 2), "Unlock"), None);
}
