use pack_verify::Delegate;
use pack_verify::Stack;
use pack_verify::StackError;

fn comp(s: &str) -> Vec<u8> {
    s.as_bytes().to_vec()
}

fn comps(parts: &[&str]) -> Vec<Vec<u8>> {
    parts.iter().map(|p| comp(p)).collect()
}

struct Recorder {
    events: Vec<String>,
    pushes_seen: usize,
    fail_on_push: Option<usize>,
}

impl Recorder {
    fn new() -> Recorder {
        Recorder { events: Vec::new(), pushes_seen: 0, fail_on_push: None }
    }
}

impl Delegate for Recorder {
    fn init(&mut self, _stack: &Stack) -> Result<(), StackError> {
        self.events.push("init".to_string());
        Ok(())
    }

    fn push_directory(&mut self, _stack: &Stack) -> Result<(), StackError> {
        self.events.push("push_directory".to_string());
        Ok(())
    }

    fn push(&mut self, is_last_component: bool, stack: &Stack) -> Result<(), StackError> {
        self.pushes_seen += 1;
        if self.fail_on_push == Some(self.pushes_seen) {
            return Err(StackError);
        }
        self.events.push(format!(
            "push:{}:{}",
            is_last_component,
            stack.current_relative().len()
        ));
        Ok(())
    }

    fn pop_directory(&mut self) {
        self.events.push("pop_directory".to_string());
    }
}

#[test]
fn new_stack_starts_at_its_root() {
    let s = Stack::new(comps(&["base"]));
    assert_eq!(s.root(), &comps(&["base"]));
    assert_eq!(s.current(), &comps(&["base"]));
    assert!(s.current_relative().is_empty());
}

#[test]
fn first_move_initializes_and_pushes_each_component() {
    let mut s = Stack::new(comps(&["base"]));
    let mut d = Recorder::new();
    s.make_relative_path_current(&comps(&["a", "b"]), &mut d).expect("delegate accepts");
    assert_eq!(s.current(), &comps(&["base", "a", "b"]));
    assert_eq!(s.current_relative(), &comps(&["a", "b"]));
    assert_eq!(
        d.events,
        vec![
            "init".to_string(),
            "push:false:1".to_string(),
            "push_directory".to_string(),
            "push:true:2".to_string(),
        ]
    );
}

#[test]
fn moving_sideways_pops_unshared_components_then_pushes() {
    let mut s = Stack::new(comps(&["base"]));
    let mut d = Recorder::new();
    s.make_relative_path_current(&comps(&["a", "b", "c"]), &mut d).expect("delegate accepts");
    d.events.clear();
    s.make_relative_path_current(&comps(&["a", "x"]), &mut d).expect("delegate accepts");
    assert_eq!(s.current_relative(), &comps(&["a", "x"]));
    assert_eq!(s.current(), &comps(&["base", "a", "x"]));
    // Two components are popped; only the second pop notifies the delegate.
    assert_eq!(
        d.events,
        vec!["pop_directory".to_string(), "push:true:2".to_string()]
    );
}

#[test]
fn failed_push_rolls_back_the_component() {
    let mut s = Stack::new(comps(&["base"]));
    let mut d = Recorder::new();
    d.fail_on_push = Some(2);
    let r = s.make_relative_path_current(&comps(&["a", "b"]), &mut d);
    assert_eq!(r, Err(StackError));
    assert_eq!(s.current_relative(), &comps(&["a"]));
    assert_eq!(s.current(), &comps(&["base", "a"]));
}

#[test]
fn repeated_move_to_same_path_changes_nothing() {
    let mut s = Stack::new(comps(&["base"]));
    let mut d = Recorder::new();
    s.make_relative_path_current(&comps(&["a", "b"]), &mut d).expect("delegate accepts");
    d.events.clear();
    s.make_relative_path_current(&comps(&["a", "b"]), &mut d).expect("delegate accepts");
    assert_eq!(s.current_relative(), &comps(&["a", "b"]));
    assert!(d.events.is_empty());
}

#[test]
fn shortening_move_cannot_fail() {
    let mut s = Stack::new(comps(&["base"]));
    let mut d = Recorder::new();
    s.make_relative_path_current(&comps(&["a", "b", "c"]), &mut d).expect("delegate accepts");
    d.events.clear();
    // Any further push would fail, but a move to a leading part pushes nothing.
    d.fail_on_push = Some(d.pushes_seen + 1);
    s.make_relative_path_current(&comps(&["a"]), &mut d).expect("no push is reached");
    assert_eq!(s.current_relative(), &comps(&["a"]));
    assert_eq!(d.events, vec!["pop_directory".to_string()]);
}

#[test]
fn repeated_move_cannot_fail_even_with_a_refusing_delegate() {
    let mut s = Stack::new(comps(&["base"]));
    let mut d = Recorder::new();
    s.make_relative_path_current(&comps(&["a", "b"]), &mut d).expect("delegate accepts");
    d.events.clear();
    d.fail_on_push = Some(d.pushes_seen + 1);
    s.make_relative_path_current(&comps(&["a", "b"]), &mut d).expect("nothing need be done");
    assert_eq!(s.current(), &comps(&["base", "a", "b"]));
    assert_eq!(s.current_relative(), &comps(&["a", "b"]));
    assert!(d.events.is_empty());
}
