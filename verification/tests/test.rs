use nom::branch::alt;
use nom::character::complete::char;
use nom::error::{make_error, ErrorKind};
use nom::{IResult, InputLength, InputTake, Offset};
use nom_packrat::protocol::{after, lookup};
use nom_packrat::{CacheKey, Cursor, PackratStorage, Phase};
use std::cell::{Cell, RefCell};

struct Grammar<'a> {
    whole: &'a str,
    storage: RefCell<PackratStorage<Vec<String>, ()>>,
    bodies: Cell<usize>,
}

impl<'a> Grammar<'a> {
    fn new(whole: &'a str) -> Self {
        Grammar { whole, storage: RefCell::new(PackratStorage::new(None)), bodies: Cell::new(0) }
    }

    fn cursor(&self, s: &'a str) -> Cursor<()> {
        Cursor::at(0, self.whole.offset(s), s.input_len(), ()).unwrap()
    }
}

fn packrat<'a, F>(
    g: &Grammar<'a>,
    rule: &'static str,
    s: &'a str,
    body: F,
) -> IResult<&'a str, Vec<String>>
where
    F: FnOnce(&'a str) -> IResult<&'a str, Vec<String>>,
{
    let cursor = g.cursor(s);
    let key = CacheKey::of(rule, cursor.position(), &s);
    let phase = lookup(&g.storage.borrow(), &key, cursor);
    match phase {
        Phase::Accepted(later, value) => {
            let (rest, _) = s.take_split(s.input_len() - later.remaining());
            Ok((rest, value))
        }
        Phase::Rejected(_) => Err(nom::Err::Error(make_error(s, ErrorKind::Fix))),
        Phase::Run(_) => {
            g.bodies.set(g.bodies.get() + 1);
            let ran = body(s);
            let outcome = match &ran {
                Ok((rest, value)) => Ok((g.cursor(rest), value.clone())),
                Err(_) => Err(()),
            };
            let _ = after(&mut g.storage.borrow_mut(), key, outcome);
            ran
        }
    }
}

fn expr<'a>(g: &Grammar<'a>, s: &'a str) -> IResult<&'a str, Vec<String>> {
    packrat(g, "expr", s, |s| alt((|s| plus(g, s), |s| minus(g, s), |s| term(g, s)))(s))
}

fn plus<'a>(g: &Grammar<'a>, s: &'a str) -> IResult<&'a str, Vec<String>> {
    packrat(g, "plus", s, |s| {
        let (s, mut x) = term(g, s)?;
        let (s, y) = char('+')(s)?;
        let (s, mut z) = expr(g, s)?;
        let mut ret = Vec::new();
        ret.append(&mut x);
        ret.append(&mut vec![y.to_string()]);
        ret.append(&mut z);
        Ok((s, ret))
    })
}

fn minus<'a>(g: &Grammar<'a>, s: &'a str) -> IResult<&'a str, Vec<String>> {
    packrat(g, "minus", s, |s| {
        let (s, mut x) = term(g, s)?;
        let (s, y) = char('-')(s)?;
        let (s, mut z) = expr(g, s)?;
        let mut ret = Vec::new();
        ret.append(&mut x);
        ret.append(&mut vec![y.to_string()]);
        ret.append(&mut z);
        Ok((s, ret))
    })
}

fn term<'a>(g: &Grammar<'a>, s: &'a str) -> IResult<&'a str, Vec<String>> {
    packrat(g, "term", s, |s| alt((|s| group(g, s), |s| atom(g, s)))(s))
}

fn group<'a>(g: &Grammar<'a>, s: &'a str) -> IResult<&'a str, Vec<String>> {
    packrat(g, "group", s, |s| {
        let (s, x) = char('(')(s)?;
        let (s, mut y) = expr(g, s)?;
        let (s, z) = char(')')(s)?;
        let mut ret = Vec::new();
        ret.append(&mut vec![x.to_string()]);
        ret.append(&mut y);
        ret.append(&mut vec![z.to_string()]);
        Ok((s, ret))
    })
}

fn atom<'a>(g: &Grammar<'a>, s: &'a str) -> IResult<&'a str, Vec<String>> {
    packrat(g, "atom", s, |s| {
        let (s, x) = char('a')(s)?;
        Ok((s, vec![x.to_string()]))
    })
}

#[test]
fn it_works() {
    let g = Grammar::new("((a))");
    g.storage.borrow_mut().clear();
    let ret = expr(&g, "((a))");
    assert_eq!(
        "Ok((\"\", [\"(\", \"(\", \"a\", \")\", \")\"]))",
        format!("{:?}", ret)
    );
}

#[test]
fn each_rule_body_runs_once_per_position() {
    let input = "((a))";
    let g = Grammar::new(input);
    let ret = expr(&g, input);
    assert!(ret.is_ok());
    // Five rules are tried at each of the two parentheses and all six at the
    // atom, each of them once.
    let first = g.bodies.get();
    assert_eq!(first, 16);
    // A second parse of the same input finds the outcome of the first rule
    // recorded and runs no body at all.
    let again = expr(&g, input);
    assert_eq!(format!("{:?}", again), format!("{:?}", ret));
    assert_eq!(g.bodies.get(), first);
}

#[test]
fn clearing_and_parsing_again_gives_the_same_outcome() {
    let input = "(a+a)-a";
    let g = Grammar::new(input);
    let first = expr(&g, input);
    let ran = g.bodies.get();
    g.storage.borrow_mut().clear();
    let second = expr(&g, input);
    assert_eq!(format!("{:?}", first), format!("{:?}", second));
    assert_eq!(
        format!("{:?}", first),
        "Ok((\"\", [\"(\", \"a\", \"+\", \"a\", \")\", \"-\", \"a\"]))"
    );
    // After the clear every body had to run again, as often as before.
    assert_eq!(g.bodies.get(), 2 * ran);
}

#[test]
fn replayed_failure_is_a_failure_of_kind_fix() {
    let input = "b";
    let g = Grammar::new(input);
    let first = atom(&g, input);
    assert_eq!(
        first,
        Err(nom::Err::Error(nom::error::Error::new("b", ErrorKind::Char)))
    );
    let second = atom(&g, input);
    assert_eq!(
        second,
        Err(nom::Err::Error(nom::error::Error::new("b", ErrorKind::Fix)))
    );
    assert_eq!(g.bodies.get(), 1);
}

#[test]
fn a_bounded_store_gives_the_same_parse() {
    let input = "((a+a)-(a))";
    let unbounded = Grammar::new(input);
    let expected = expr(&unbounded, input);
    for size in 0..8 {
        let g = Grammar {
            whole: input,
            storage: RefCell::new(PackratStorage::new(Some(size))),
            bodies: Cell::new(0),
        };
        let got = expr(&g, input);
        assert_eq!(format!("{:?}", got.as_ref().map(|r| &r.1)), format!("{:?}", expected.as_ref().map(|r| &r.1)));
        assert!(g.bodies.get() >= unbounded.bodies.get());
    }
}
