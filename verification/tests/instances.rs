use lwprintf_rs::{lwprintf_init, lwprintf_init_ex, out_fn, CustomOutPut, LwprintfObj};

/// An output that keeps what it is given and counts the calls.
struct Counting {
    seen: Vec<i32>,
    calls: usize,
}

impl Counting {
    fn new() -> Self {
        Counting { seen: Vec::new(), calls: 0 }
    }
}

impl CustomOutPut for Counting {
    fn putch(&mut self, ch: i32) -> i32 {
        self.seen.push(ch);
        self.calls += 1;
        ch
    }
}

#[test]
fn new_instance_has_no_output() {
    let mut lwobj = LwprintfObj::<Vec<i32>>::new();
    assert!(lwobj.as_mut_ptr().output().is_none());
}

#[test]
fn default_instance_has_no_output() {
    let mut lwobj: LwprintfObj<Counting> = Default::default();
    assert!(lwobj.as_mut_ptr().output().is_none());
}

#[test]
fn init_ex_accepts_and_binds_the_output() {
    let mut lwobj = LwprintfObj::<Vec<i32>>::new();
    let accepted = lwprintf_init_ex(&mut lwobj, vec![7, 8]);
    assert_eq!(accepted, 1);
    assert_eq!(lwobj.as_mut_ptr().output(), Some(&vec![7, 8]));
}

#[test]
fn init_ex_again_replaces_the_output() {
    let mut lwobj = LwprintfObj::<Vec<i32>>::new();
    assert_eq!(lwprintf_init_ex(&mut lwobj, vec![1]), 1);
    assert_eq!(out_fn(2, lwobj.as_mut_ptr()), 2);
    assert_eq!(lwobj.as_mut_ptr().output(), Some(&vec![1, 2]));
    assert_eq!(lwprintf_init_ex(&mut lwobj, vec![9]), 1);
    assert_eq!(lwobj.as_mut_ptr().output(), Some(&vec![9]));
}

#[test]
fn out_fn_hands_the_code_on_and_back() {
    let mut lwobj = LwprintfObj::<Counting>::new();
    lwprintf_init_ex(&mut lwobj, Counting::new());
    assert_eq!(out_fn(65, lwobj.as_mut_ptr()), 65);
    assert_eq!(out_fn(0, lwobj.as_mut_ptr()), 0);
    assert_eq!(out_fn(-1, lwobj.as_mut_ptr()), -1);
    let out = lwobj.as_mut_ptr().output().unwrap();
    assert_eq!(out.seen, vec![65, 0, -1]);
    assert_eq!(out.calls, 3);
}

#[test]
fn as_mut_ptr_lends_the_same_state_each_time() {
    let mut lwobj = LwprintfObj::<Vec<i32>>::new();
    lwprintf_init_ex(&mut lwobj, Vec::new());
    {
        let state = lwobj.as_mut_ptr();
        out_fn(104, state);
        out_fn(105, state);
    }
    out_fn(33, lwobj.as_mut_ptr());
    assert_eq!(lwobj.as_mut_ptr().output(), Some(&vec![104, 105, 33]));
}

#[test]
fn vector_output_keeps_codes_in_order() {
    let mut out: Vec<i32> = vec![3];
    assert_eq!(out.putch(1), 1);
    assert_eq!(out.putch(2), 2);
    assert_eq!(out, vec![3, 1, 2]);
}

#[test]
fn init_creates_the_default_instance() {
    let mut default: Option<LwprintfObj<Vec<i32>>> = None;
    assert_eq!(lwprintf_init(&mut default, vec![5]), 1);
    let lwobj = default.as_mut().unwrap();
    assert_eq!(lwobj.as_mut_ptr().output(), Some(&vec![5]));
}

#[test]
fn init_binds_a_default_instance_that_exists() {
    let mut default = Some(LwprintfObj::<Vec<i32>>::new());
    assert_eq!(lwprintf_init(&mut default, vec![6]), 1);
    assert_eq!(default.as_mut().unwrap().as_mut_ptr().output(), Some(&vec![6]));
}

#[test]
fn init_again_replaces_the_output_of_the_default_instance() {
    let mut default: Option<LwprintfObj<Counting>> = None;
    assert_eq!(lwprintf_init(&mut default, Counting::new()), 1);
    out_fn(1, default.as_mut().unwrap().as_mut_ptr());
    assert_eq!(lwprintf_init(&mut default, Counting::new()), 1);
    out_fn(2, default.as_mut().unwrap().as_mut_ptr());
    let out = default.as_mut().unwrap().as_mut_ptr().output().unwrap();
    assert_eq!(out.seen, vec![2]);
    assert_eq!(out.calls, 1);
}
