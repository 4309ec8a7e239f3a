use rpn::{Action, BinaryOp, Error, UnaryOp, Word, RPN};

struct Session {
    rpn: RPN,
    emitted: Vec<f64>,
    helps: usize,
    quit: bool,
}

fn unary(op: UnaryOp, x: f64) -> f64 {
    match op {
        UnaryOp::Abs => x.abs(),
        UnaryOp::Round => x.round(),
        UnaryOp::Sqrt => x.sqrt(),
        UnaryOp::Cbrt => x.cbrt(),
        UnaryOp::LogN => x.ln(),
        UnaryOp::Log => x.log10(),
        UnaryOp::Sin => x.sin(),
        UnaryOp::Asin => x.asin(),
        UnaryOp::Sinh => x.sinh(),
        UnaryOp::Cos => x.cos(),
        UnaryOp::Acos => x.acos(),
        UnaryOp::Cosh => x.cosh(),
        UnaryOp::Tan => x.tan(),
        UnaryOp::Atan => x.atan(),
        UnaryOp::Tanh => x.tanh(),
    }
}

fn binary(op: BinaryOp, left: f64, right: f64) -> f64 {
    match op {
        BinaryOp::Add => left + right,
        BinaryOp::Subtract => left - right,
        BinaryOp::Multiply => left * right,
        BinaryOp::Divide => left / right,
        BinaryOp::Modulo => left % right,
        BinaryOp::Pow => left.powf(right),
    }
}

impl Session {
    fn new() -> Session {
        Session { rpn: RPN::new(), emitted: Vec::new(), helps: 0, quit: false }
    }

    fn drive(&mut self, first: Action) -> Result<(), Error> {
        let mut action = first;
        loop {
            action = match action {
                Action::Done => return Ok(()),
                Action::Failed(error) => return Err(error),
                Action::Quit => {
                    self.quit = true;
                    return Ok(());
                }
                Action::Help => {
                    self.helps += 1;
                    self.rpn.resume(None)
                }
                Action::Emit(value) => {
                    self.emitted.push(f64::from_bits(value));
                    self.rpn.resume(None)
                }
                Action::Literal(text) => {
                    let text: String = text.iter().collect();
                    self.rpn.resume(text.parse::<f64>().ok().map(f64::to_bits))
                }
                Action::Unary(op, x) => {
                    self.rpn.resume(Some(unary(op, f64::from_bits(x)).to_bits()))
                }
                Action::Binary(op, left, right) => self.rpn.resume(Some(
                    binary(op, f64::from_bits(left), f64::from_bits(right)).to_bits(),
                )),
            }
        }
    }

    fn eval(&mut self, line: &str) -> Result<(), Error> {
        let first = self.rpn.eval(line);
        self.drive(first)
    }

    fn define(&mut self, line: &str) -> Result<(), Error> {
        let first = self.rpn.do_define(line);
        self.drive(first)
    }

    fn stack(&self) -> Vec<f64> {
        self.rpn.stack().iter().map(|bits| f64::from_bits(*bits)).collect()
    }
}

#[test]
fn new_machine_is_empty() {
    let s = Session::new();
    assert!(s.stack().is_empty());
    assert!(RPN::default().stack().is_empty());
}

#[test]
fn right_operand_is_the_value_pushed_last() {
    let mut s = Session::new();
    assert_eq!(s.eval("6 3 /"), Ok(()));
    assert_eq!(s.stack(), vec![2.0]);
    assert_eq!(s.eval("clear 6 3 -"), Ok(()));
    assert_eq!(s.stack(), vec![3.0]);
    assert_eq!(s.eval("clear 7 4 %"), Ok(()));
    assert_eq!(s.stack(), vec![3.0]);
    assert_eq!(s.eval("clear 3 2 pow"), Ok(()));
    assert_eq!(s.stack(), vec![9.0]);
    assert_eq!(s.eval("clear 2 3 ^"), Ok(()));
    assert_eq!(s.stack(), vec![8.0]);
}

#[test]
fn addition_and_multiplication() {
    let mut s = Session::new();
    assert_eq!(s.eval("4 3 *"), Ok(()));
    assert_eq!(s.stack(), vec![12.0]);
    assert_eq!(s.eval("0.5 +"), Ok(()));
    assert_eq!(s.stack(), vec![12.5]);
}

#[test]
fn floor_keeps_the_greater_and_ceil_the_lesser() {
    let mut s = Session::new();
    assert_eq!(s.eval("3 7 floor"), Ok(()));
    assert_eq!(s.stack(), vec![7.0]);
    assert_eq!(s.eval("clear 3 7 ceil"), Ok(()));
    assert_eq!(s.stack(), vec![3.0]);
    assert_eq!(s.eval("clear 7 3 fl"), Ok(()));
    assert_eq!(s.stack(), vec![7.0]);
    assert_eq!(s.eval("clear 7 3 cl"), Ok(()));
    assert_eq!(s.stack(), vec![3.0]);
    assert_eq!(s.eval("clear -2.5 -7 floor"), Ok(()));
    assert_eq!(s.stack(), vec![-2.5]);
    assert_eq!(s.eval("clear 2.5 floor"), Err(Error::StackUnderflow));
    assert!(s.stack().is_empty());
}

#[test]
fn dup_pushes_the_top_again() {
    let mut s = Session::new();
    assert_eq!(s.eval("5"), Ok(()));
    assert_eq!(s.stack(), vec![5.0]);
    assert_eq!(s.eval("dup"), Ok(()));
    assert_eq!(s.stack(), vec![5.0, 5.0]);
}

#[test]
fn swap_exchanges_the_two_upper_values() {
    let mut s = Session::new();
    assert_eq!(s.eval("1 2"), Ok(()));
    assert_eq!(s.stack(), vec![1.0, 2.0]);
    assert_eq!(s.eval("swap"), Ok(()));
    assert_eq!(s.stack(), vec![2.0, 1.0]);
}

#[test]
fn over_pushes_the_value_below_the_top() {
    let mut s = Session::new();
    assert_eq!(s.eval("1 2"), Ok(()));
    assert_eq!(s.eval("over"), Ok(()));
    assert_eq!(s.stack(), vec![1.0, 2.0, 1.0]);
}

#[test]
fn drop_takes_the_top_off() {
    let mut s = Session::new();
    assert_eq!(s.eval("1 2 drop"), Ok(()));
    assert_eq!(s.stack(), vec![1.0]);
    assert_eq!(s.eval("drop drop"), Err(Error::StackUnderflow));
}

#[test]
fn sum_adds_the_whole_stack() {
    let mut s = Session::new();
    assert_eq!(s.eval("1 2 3"), Ok(()));
    assert_eq!(s.eval("sum"), Ok(()));
    assert_eq!(s.stack(), vec![6.0]);
    assert_eq!(s.eval("sum"), Ok(()));
    assert_eq!(s.stack(), vec![6.0]);
}

#[test]
fn sum_adds_from_the_top_down() {
    // 1e16 + 1 is 1e16 again, so the order of the additions shows.
    let mut s = Session::new();
    assert_eq!(s.eval("1 1 1e16 sum"), Ok(()));
    assert_eq!(s.stack(), vec![(1e16 + 1.0) + 1.0]);
    assert_eq!(s.eval("clear 1e16 1 1 sum"), Ok(()));
    assert_eq!(s.stack(), vec![(1.0 + 1.0) + 1e16]);
}

#[test]
fn sum_of_nothing_is_an_underflow() {
    let mut s = Session::new();
    assert_eq!(s.eval("sum"), Err(Error::StackUnderflow));
    assert!(s.stack().is_empty());
}

#[test]
fn division_by_zero_consumes_both_operands() {
    let mut s = Session::new();
    assert_eq!(s.eval("5 0 /"), Err(Error::DivisionByZero));
    assert!(s.stack().is_empty());
    assert_eq!(s.eval("1 5 -0 /"), Err(Error::DivisionByZero));
    assert_eq!(s.stack(), vec![1.0]);
}

#[test]
fn modulo_by_zero_is_not_an_error() {
    let mut s = Session::new();
    assert_eq!(s.eval("5 0 %"), Ok(()));
    assert_eq!(s.stack().len(), 1);
    assert!(s.stack()[0].is_nan());
}

#[test]
fn underflow_on_an_empty_stack() {
    let mut s = Session::new();
    assert_eq!(s.eval("+"), Err(Error::StackUnderflow));
    assert!(s.stack().is_empty());
}

#[test]
fn underflow_does_not_give_the_popped_value_back() {
    let mut s = Session::new();
    assert_eq!(s.eval("1 +"), Err(Error::StackUnderflow));
    assert!(s.stack().is_empty());
    assert_eq!(s.eval("1 2 3 swap over +"), Ok(()));
    assert_eq!(s.stack(), vec![1.0, 3.0, 5.0]);
}

#[test]
fn unknown_token() {
    let mut s = Session::new();
    assert_eq!(s.eval("foo"), Err(Error::UnknownWord));
    assert_eq!(s.eval("1 2 foo 3"), Err(Error::UnknownWord));
    assert_eq!(s.stack(), vec![1.0, 2.0]);
}

#[test]
fn empty_tokens_are_unknown() {
    let mut s = Session::new();
    assert_eq!(s.eval(""), Err(Error::UnknownWord));
    assert_eq!(s.eval("1  2"), Err(Error::UnknownWord));
    assert_eq!(s.stack(), vec![1.0]);
    assert_eq!(s.eval(" 3"), Err(Error::UnknownWord));
    assert_eq!(s.stack(), vec![1.0]);
}

#[test]
fn white_space_at_the_end_of_a_line_is_dropped() {
    let mut s = Session::new();
    assert_eq!(s.eval("1 2 +\n"), Ok(()));
    assert_eq!(s.stack(), vec![3.0]);
    assert_eq!(s.eval("4 *  \t\r\n"), Ok(()));
    assert_eq!(s.stack(), vec![12.0]);
    assert_eq!(s.eval("1\u{a0}"), Ok(()));
    assert_eq!(s.stack(), vec![12.0, 1.0]);
    assert_eq!(s.eval("2\t3"), Err(Error::UnknownWord));
}

#[test]
fn definition_round_trip() {
    let mut s = Session::new();
    assert_eq!(s.eval(": inc 1 + ;"), Ok(()));
    assert!(s.stack().is_empty());
    assert_eq!(s.eval("5 inc"), Ok(()));
    assert_eq!(s.stack(), vec![6.0]);
}

#[test]
fn definition_composition() {
    let mut s = Session::new();
    assert_eq!(s.eval(": inc 1 + ;"), Ok(()));
    assert_eq!(s.eval(": inc2 inc inc ;"), Ok(()));
    assert_eq!(s.eval("5 inc2"), Ok(()));
    assert_eq!(s.stack(), vec![7.0]);
}

#[test]
fn evaluation_goes_on_behind_a_definition() {
    let mut s = Session::new();
    assert_eq!(s.eval("2 : double dup + ; double double"), Ok(()));
    assert_eq!(s.stack(), vec![8.0]);
}

#[test]
fn a_definition_keeps_what_it_resolved() {
    let mut s = Session::new();
    assert_eq!(s.eval(": a 1 ;"), Ok(()));
    assert_eq!(s.eval(": b a a ;"), Ok(()));
    assert_eq!(s.eval(": a 10 ;"), Ok(()));
    assert_eq!(s.eval("b a"), Ok(()));
    assert_eq!(s.stack(), vec![1.0, 1.0, 10.0]);
    assert_eq!(s.eval("clear : a a a ;"), Ok(()));
    assert_eq!(s.eval("a"), Ok(()));
    assert_eq!(s.stack(), vec![10.0, 10.0]);
}

#[test]
fn an_error_in_a_definition_stops_the_line() {
    let mut s = Session::new();
    assert_eq!(s.eval(": half 2 / ;"), Ok(()));
    assert_eq!(s.eval(": bad 0 / 7 ;"), Ok(()));
    assert_eq!(s.eval(": outer bad 8 ;"), Ok(()));
    assert_eq!(s.eval("3 6 half outer 9"), Err(Error::DivisionByZero));
    assert_eq!(s.stack(), vec![3.0]);
    assert_eq!(s.eval("4"), Ok(()));
    assert_eq!(s.stack(), vec![3.0, 4.0]);
}

#[test]
fn number_as_name_is_rejected() {
    let mut s = Session::new();
    assert_eq!(s.eval(": 3 1 + ;"), Err(Error::InvalidWord));
    assert_eq!(s.eval("3"), Ok(()));
    assert_eq!(s.stack(), vec![3.0]);
    assert_eq!(s.eval(": -1e3 1 ;"), Err(Error::InvalidWord));
    assert_eq!(s.eval(": inf 1 ;"), Err(Error::InvalidWord));
    assert_eq!(s.eval(": NaN 1 ;"), Err(Error::InvalidWord));
}

#[test]
fn unterminated_definition() {
    let mut s = Session::new();
    assert_eq!(s.eval(": name 1 +"), Err(Error::InvalidWord));
    assert_eq!(s.eval("name"), Err(Error::UnknownWord));
    assert_eq!(s.eval(":"), Err(Error::InvalidWord));
    assert_eq!(s.eval(": name"), Err(Error::InvalidWord));
}

#[test]
fn definitions_do_not_nest() {
    let mut s = Session::new();
    assert_eq!(s.eval(": a 1 : b 2 ; ;"), Err(Error::InvalidWord));
    assert_eq!(s.eval("a"), Err(Error::UnknownWord));
    assert_eq!(s.eval("b"), Err(Error::UnknownWord));
}

#[test]
fn an_unknown_token_in_a_body_stores_nothing() {
    let mut s = Session::new();
    assert_eq!(s.eval("1 : a 2 foo ;"), Err(Error::UnknownWord));
    assert_eq!(s.stack(), vec![1.0]);
    assert_eq!(s.eval("a"), Err(Error::UnknownWord));
}

#[test]
fn structural_words_alone_are_invalid() {
    let mut s = Session::new();
    assert_eq!(s.eval(";"), Err(Error::InvalidWord));
    assert_eq!(s.eval("1 ; 2"), Err(Error::InvalidWord));
    assert_eq!(s.stack(), vec![1.0]);
}

#[test]
fn shadowing_a_built_in_word() {
    let mut s = Session::new();
    assert_eq!(s.eval(": + - ;"), Ok(()));
    assert_eq!(s.eval("5 3 +"), Ok(()));
    assert_eq!(s.stack(), vec![2.0]);
    assert_eq!(s.eval(": : 42 ;"), Ok(()));
    assert_eq!(s.eval(":"), Ok(()));
    assert_eq!(s.stack(), vec![2.0, 42.0]);
}

#[test]
fn case_does_not_count() {
    let mut s = Session::new();
    assert_eq!(s.eval("1 DUP dup Dup"), Ok(()));
    assert_eq!(s.stack(), vec![1.0, 1.0, 1.0, 1.0]);
    assert_eq!(s.eval("clear 1E2 PI"), Ok(()));
    assert_eq!(s.stack(), vec![100.0, std::f64::consts::PI]);
}

#[test]
fn names_are_kept_in_small_letters() {
    let mut s = Session::new();
    assert_eq!(s.eval(": INC 1 + ;"), Ok(()));
    assert_eq!(s.eval("5 inc Inc"), Ok(()));
    assert_eq!(s.stack(), vec![7.0]);
    // A name is folded by the rules of Unicode, a token only in its ASCII
    // letters.
    assert_eq!(s.eval("clear : \u{c4}b 3 ;"), Ok(()));
    assert_eq!(s.eval("\u{e4}b \u{e4}B"), Ok(()));
    assert_eq!(s.stack(), vec![3.0, 3.0]);
    assert_eq!(s.eval("\u{c4}b"), Err(Error::UnknownWord));
}

#[test]
fn constants() {
    let mut s = Session::new();
    assert_eq!(s.eval("me euler e pi tau"), Ok(()));
    assert_eq!(
        s.stack(),
        vec![
            f64::EPSILON,
            std::f64::consts::E,
            std::f64::consts::E,
            std::f64::consts::PI,
            std::f64::consts::TAU
        ]
    );
}

#[test]
fn unary_words() {
    let mut s = Session::new();
    assert_eq!(s.eval("-2.5 abs"), Ok(()));
    assert_eq!(s.eval("-2.5 ||"), Ok(()));
    assert_eq!(s.eval("2.5 round 2.5 r"), Ok(()));
    assert_eq!(s.eval("16 sqrt 16 v"), Ok(()));
    assert_eq!(s.eval("27 cbrt 27 v3"), Ok(()));
    assert_eq!(s.stack(), vec![2.5, 2.5, 3.0, 3.0, 4.0, 4.0, 3.0, 3.0]);
    assert_eq!(s.eval("clear 1 ln 100 log"), Ok(()));
    assert_eq!(s.stack(), vec![0.0, 2.0]);
    assert_eq!(s.eval("clear 0.5 sin 0.5 asin 0.5 sinh"), Ok(()));
    assert_eq!(s.stack(), vec![0.5f64.sin(), 0.5f64.asin(), 0.5f64.sinh()]);
    assert_eq!(s.eval("clear 0.5 cos 0.5 acos 0.5 cosh"), Ok(()));
    assert_eq!(s.stack(), vec![0.5f64.cos(), 0.5f64.acos(), 0.5f64.cosh()]);
    assert_eq!(s.eval("clear 0.5 tan 0.5 atan 0.5 tanh"), Ok(()));
    assert_eq!(s.stack(), vec![0.5f64.tan(), 0.5f64.atan(), 0.5f64.tanh()]);
    assert_eq!(s.eval("clear sqrt"), Err(Error::StackUnderflow));
}

#[test]
fn square_root_of_a_negative_is_no_error() {
    let mut s = Session::new();
    assert_eq!(s.eval("-1 sqrt"), Ok(()));
    assert!(s.stack()[0].is_nan());
}

#[test]
fn clear_empties_the_stack() {
    let mut s = Session::new();
    assert_eq!(s.eval("1 2 3 clear"), Ok(()));
    assert!(s.stack().is_empty());
    assert_eq!(s.eval("c"), Ok(()));
    assert_eq!(s.eval("1 c 2"), Ok(()));
    assert_eq!(s.stack(), vec![2.0]);
}

#[test]
fn emit_hands_the_top_out() {
    let mut s = Session::new();
    assert_eq!(s.eval("1 2 emit 3 ."), Ok(()));
    assert_eq!(s.emitted, vec![2.0, 3.0]);
    assert_eq!(s.stack(), vec![1.0]);
    assert_eq!(s.eval("drop emit"), Err(Error::StackUnderflow));
}

#[test]
fn help_leaves_the_stack_alone() {
    let mut s = Session::new();
    assert_eq!(s.eval("1 help 2 ?"), Ok(()));
    assert_eq!(s.helps, 2);
    assert_eq!(s.stack(), vec![1.0, 2.0]);
}

#[test]
fn quit_ends_the_line() {
    let mut s = Session::new();
    assert_eq!(s.eval("1 quit 2"), Ok(()));
    assert!(s.quit);
    assert_eq!(s.stack(), vec![1.0]);
    assert_eq!(s.rpn.resume(None), Action::Done);
    let mut s = Session::new();
    assert_eq!(s.eval(": bye 7 q 8 ;"), Ok(()));
    assert!(!s.quit);
    assert_eq!(s.eval("bye 9"), Ok(()));
    assert!(s.quit);
    assert_eq!(s.stack(), vec![7.0]);
}

#[test]
fn numbers_in_many_shapes() {
    let mut s = Session::new();
    assert_eq!(s.eval("1. .5 +3 -4.25 1e3 1.5E-2 2e+2 inf -Infinity"), Ok(()));
    assert_eq!(
        s.stack(),
        vec![1.0, 0.5, 3.0, -4.25, 1000.0, 0.015, 200.0, f64::INFINITY, f64::NEG_INFINITY]
    );
    assert_eq!(s.eval("clear nan"), Ok(()));
    assert!(s.stack()[0].is_nan());
    for bad in ["..", "e5", "1e", "1e+", "+-", "-.", "1_0", "0x10", "1.2.3", "--1", "infinit"] {
        assert_eq!(s.eval(bad), Err(Error::UnknownWord));
    }
}

#[test]
fn the_actions_of_a_line() {
    let mut rpn = RPN::new();
    assert_eq!(rpn.eval("6 3 /"), Action::Literal(vec!['6']));
    assert_eq!(rpn.resume(Some(6f64.to_bits())), Action::Literal(vec!['3']));
    assert_eq!(
        rpn.resume(Some(3f64.to_bits())),
        Action::Binary(BinaryOp::Divide, 6f64.to_bits(), 3f64.to_bits())
    );
    assert!(rpn.stack().is_empty());
    assert_eq!(rpn.resume(Some(2f64.to_bits())), Action::Done);
    assert_eq!(rpn.stack().to_vec(), vec![2f64.to_bits()]);
    assert_eq!(rpn.resume(None), Action::Done);
    assert_eq!(rpn.eval("SQRT"), Action::Unary(UnaryOp::Sqrt, 2f64.to_bits()));
}

#[test]
fn a_value_that_does_not_come_fails_the_line() {
    let mut rpn = RPN::new();
    assert_eq!(rpn.eval("1 2"), Action::Literal(vec!['1']));
    assert_eq!(rpn.resume(None), Action::Failed(Error::StackPushFailed));
    assert!(rpn.stack().is_empty());
    assert_eq!(rpn.resume(None), Action::Done);
}

#[test]
fn a_new_line_drops_the_rest_of_the_old_one() {
    let mut rpn = RPN::new();
    assert_eq!(rpn.eval("1 2"), Action::Literal(vec!['1']));
    assert_eq!(rpn.eval("dup"), Action::Failed(Error::StackUnderflow));
    assert_eq!(rpn.eval(": a 1"), Action::Literal(vec!['1']));
    assert_eq!(rpn.eval("a"), Action::Failed(Error::UnknownWord));
}

#[test]
fn do_define_records_without_the_opening_word() {
    let mut s = Session::new();
    assert_eq!(s.define("inc 1 + ;"), Ok(()));
    assert!(s.stack().is_empty());
    assert_eq!(s.eval("5 inc"), Ok(()));
    assert_eq!(s.stack(), vec![6.0]);
    assert_eq!(s.define(" 4 ;"), Ok(()));
    assert_eq!(s.stack(), vec![6.0]);
    assert_eq!(s.eval(""), Ok(()));
    assert_eq!(s.stack(), vec![6.0, 4.0]);
}

#[test]
fn do_define_stops_at_the_close() {
    let mut s = Session::new();
    assert_eq!(s.eval("9"), Ok(()));
    assert_eq!(s.define("inc 1 + ; 5 inc"), Ok(()));
    assert_eq!(s.stack(), vec![9.0]);
    assert_eq!(s.eval("inc"), Ok(()));
    assert_eq!(s.stack(), vec![10.0]);
}

#[test]
fn do_define_leaves_the_rest_unread() {
    let mut rpn = RPN::new();
    assert_eq!(rpn.do_define("a ; 5"), Action::Done);
    assert!(rpn.stack().is_empty());
    assert_eq!(rpn.parse(&vec!['a']), Ok(rpn::Parsed::Word(Word::Definition(0))));

    let mut rpn = RPN::new();
    assert_eq!(rpn.do_define("a ; foo"), Action::Done);
    assert_eq!(rpn.parse(&vec!['a']), Ok(rpn::Parsed::Word(Word::Definition(0))));

    let mut rpn = RPN::new();
    assert_eq!(rpn.do_define("a ; ;"), Action::Done);
    assert_eq!(rpn.do_define("b dup ; : zz 1 ;"), Action::Done);
    assert_eq!(rpn.parse(&vec!['b']), Ok(rpn::Parsed::Word(Word::Definition(1))));
    assert_eq!(rpn.parse(&vec!['z', 'z']), Err(Error::UnknownWord));
}

#[test]
fn resume_goes_on_behind_the_close() {
    let mut s = Session::new();
    assert_eq!(s.define("inc 1 + ; 5 inc"), Ok(()));
    assert!(s.stack().is_empty());
    let rest = s.rpn.resume(None);
    assert_eq!(rest, Action::Literal(vec!['5']));
    assert_eq!(s.drive(rest), Ok(()));
    assert_eq!(s.stack(), vec![6.0]);

    let mut rpn = RPN::new();
    assert_eq!(rpn.do_define("a ; foo"), Action::Done);
    assert_eq!(rpn.resume(None), Action::Failed(Error::UnknownWord));
    assert_eq!(rpn.parse(&vec!['a']), Ok(rpn::Parsed::Word(Word::Definition(0))));
    assert_eq!(rpn.do_define("b ; ;"), Action::Done);
    assert_eq!(rpn.resume(None), Action::Failed(Error::InvalidWord));
    assert_eq!(rpn.do_define("c ;"), Action::Done);
    assert_eq!(rpn.resume(None), Action::Done);
}

#[test]
fn do_define_stops_at_the_close_behind_a_literal() {
    let mut rpn = RPN::new();
    assert_eq!(rpn.do_define("two 2 dup ; 7"), Action::Literal(vec!['2']));
    assert_eq!(rpn.parse(&vec!['t', 'w', 'o']), Err(Error::UnknownWord));
    assert_eq!(rpn.resume(Some(2f64.to_bits())), Action::Done);
    assert!(rpn.stack().is_empty());
    assert_eq!(rpn.parse(&vec!['t', 'w', 'o']), Ok(rpn::Parsed::Word(Word::Definition(0))));
    assert_eq!(rpn.eval("two"), Action::Done);
    assert_eq!(rpn.stack().to_vec(), vec![2f64.to_bits(), 2f64.to_bits()]);
}

#[test]
fn a_failing_do_define_changes_nothing() {
    let mut s = Session::new();
    assert_eq!(s.eval("1 2"), Ok(()));
    assert_eq!(s.define("a 10 ;"), Ok(()));
    for line in ["a 20 foo ;", "a 20 : ;", "a 20", "3 20 ;", "b 1 2 foo", "b :"] {
        assert!(s.define(line).is_err(), "{}", line);
        assert_eq!(s.stack(), vec![1.0, 2.0], "{}", line);
        assert_eq!(s.eval("a"), Ok(()), "{}", line);
        assert_eq!(s.stack(), vec![1.0, 2.0, 10.0], "{}", line);
        assert_eq!(s.eval("drop"), Ok(()));
        assert_eq!(s.eval("b"), Err(Error::UnknownWord), "{}", line);
    }
    let mut rpn = RPN::new();
    assert_eq!(rpn.do_define("a 1 ;"), Action::Literal(vec!['1']));
    assert_eq!(rpn.resume(None), Action::Failed(Error::StackPushFailed));
    assert_eq!(rpn.parse(&vec!['a']), Err(Error::UnknownWord));
    assert!(rpn.stack().is_empty());
}

#[test]
fn do_define_is_invalid_in_three_cases() {
    // The name is a number.
    for line in ["3 1 + ;", "-1e3 ;", "inf dup ;", ".5"] {
        assert_eq!(Session::new().define(line), Err(Error::InvalidWord), "{}", line);
    }
    // A `:` stands before the `;`.
    for line in ["a : ;", "a dup : b ; ;", "a 1 :"] {
        assert_eq!(Session::new().define(line), Err(Error::InvalidWord), "{}", line);
    }
    // The line ends before the `;`.
    for line in ["", "a", "a dup", "open 1 +"] {
        assert_eq!(Session::new().define(line), Err(Error::InvalidWord), "{}", line);
    }
    // In no other case.
    for line in ["a ;", "; ;", ": ;", "a ; ;", "a dup ; :", "a 1 ; 3 1 + ;"] {
        assert_eq!(Session::new().define(line), Ok(()), "{}", line);
    }
    for line in ["a foo ;", "a foo", "a foo :", "a 1  ;"] {
        assert_eq!(Session::new().define(line), Err(Error::UnknownWord), "{}", line);
    }
}

#[test]
fn a_reply_takes_the_place_of_the_operands_in_every_state() {
    // While the stack is added up.
    let mut s = Session::new();
    assert_eq!(s.eval("1 2 3 4"), Ok(()));
    assert_eq!(s.rpn.eval("sum"), Action::Binary(BinaryOp::Add, 4f64.to_bits(), 3f64.to_bits()));
    assert_eq!(
        s.rpn.execute(Word::Subtract),
        Action::Binary(BinaryOp::Subtract, 1f64.to_bits(), 2f64.to_bits())
    );
    assert_eq!(s.rpn.resume(Some((-1f64).to_bits())), Action::Done);
    assert_eq!(s.stack(), vec![-1.0]);
    // While a definition waits for the value of a literal.
    let mut s = Session::new();
    assert_eq!(s.eval("6 3"), Ok(()));
    assert_eq!(s.rpn.eval(": a 1"), Action::Literal(vec!['1']));
    assert_eq!(
        s.rpn.execute(Word::Divide),
        Action::Binary(BinaryOp::Divide, 6f64.to_bits(), 3f64.to_bits())
    );
    assert_eq!(s.rpn.resume(Some(2f64.to_bits())), Action::Failed(Error::InvalidWord));
    assert_eq!(s.stack(), vec![2.0]);
}

#[test]
fn parse_resolves_tokens() {
    let mut s = Session::new();
    let chars = |t: &str| t.chars().collect::<Vec<char>>();
    assert_eq!(s.rpn.parse(&chars("Swap")), Ok(rpn::word::Parsed::Word(rpn::Word::Swap)));
    assert_eq!(s.rpn.parse(&chars("1e5")), Ok(rpn::word::Parsed::Number));
    assert_eq!(s.rpn.parse(&chars("foo")), Err(Error::UnknownWord));
    assert_eq!(s.eval(": foo 1 ;"), Ok(()));
    assert_eq!(s.eval(": swap 2 ;"), Ok(()));
    assert_eq!(s.rpn.parse(&chars("FOO")), Ok(rpn::word::Parsed::Word(rpn::Word::Definition(0))));
    assert_eq!(s.rpn.parse(&chars("swap")), Ok(rpn::word::Parsed::Word(rpn::Word::Definition(1))));
}

#[test]
fn a_literal_in_a_body_is_converted_when_it_is_recorded() {
    let mut rpn = RPN::new();
    assert_eq!(rpn.eval(": two 2 ;"), Action::Literal(vec!['2']));
    assert_eq!(rpn.resume(Some(2f64.to_bits())), Action::Done);
    assert!(rpn.stack().is_empty());
    assert_eq!(rpn.eval("two TWO"), Action::Done);
    assert_eq!(rpn.stack().to_vec(), vec![2f64.to_bits(), 2f64.to_bits()]);
}

#[test]
fn a_literal_is_handed_out_in_small_letters() {
    let mut rpn = RPN::new();
    assert_eq!(rpn.eval("1E5"), Action::Literal(vec!['1', 'e', '5']));
    assert_eq!(rpn.eval("-INF"), Action::Literal(vec!['-', 'i', 'n', 'f']));
}

#[test]
fn a_reply_that_was_not_asked_for_is_ignored() {
    let mut rpn = RPN::new();
    assert_eq!(rpn.eval("help dup"), Action::Help);
    assert_eq!(rpn.resume(Some(1f64.to_bits())), Action::Failed(Error::StackUnderflow));
    assert!(rpn.stack().is_empty());
    assert_eq!(rpn.resume(Some(1f64.to_bits())), Action::Done);
    assert!(rpn.stack().is_empty());
}

#[test]
fn the_actions_of_sum() {
    let mut rpn = RPN::new();
    assert_eq!(rpn.eval("sum"), Action::Failed(Error::StackUnderflow));
    let mut s = Session::new();
    assert_eq!(s.eval("1 2 4"), Ok(()));
    assert_eq!(
        s.rpn.eval("sum dup"),
        Action::Binary(BinaryOp::Add, 4f64.to_bits(), 2f64.to_bits())
    );
    assert_eq!(s.stack(), vec![1.0]);
    assert_eq!(
        s.rpn.resume(Some(6f64.to_bits())),
        Action::Binary(BinaryOp::Add, 6f64.to_bits(), 1f64.to_bits())
    );
    assert!(s.stack().is_empty());
    assert_eq!(s.rpn.resume(Some(7f64.to_bits())), Action::Done);
    assert_eq!(s.stack(), vec![7.0, 7.0]);
}

#[test]
fn words_of_every_kind_in_a_definition() {
    let mut s = Session::new();
    assert_eq!(s.eval(": show dup emit help ;"), Ok(()));
    assert_eq!(s.eval(": total sum show ;"), Ok(()));
    assert_eq!(s.eval(": twice total total ;"), Ok(()));
    assert_eq!(s.eval("1 2 3 twice 4"), Ok(()));
    assert_eq!(s.emitted, vec![6.0, 6.0]);
    assert_eq!(s.helps, 2);
    assert_eq!(s.stack(), vec![6.0, 4.0]);
}

#[test]
fn definitions_nest_deeply() {
    let mut s = Session::new();
    assert_eq!(s.eval(": d0 1 + ;"), Ok(()));
    for i in 1..=12 {
        assert_eq!(s.eval(&format!(": d{} d{} d{} ;", i, i - 1, i - 1)), Ok(()));
    }
    assert_eq!(s.eval("0 d12"), Ok(()));
    assert_eq!(s.stack(), vec![4096.0]);
    for i in 13..=200 {
        assert_eq!(s.eval(&format!(": d{} d{} ;", i, i - 1)), Ok(()));
    }
    assert_eq!(s.eval("d200"), Ok(()));
    assert_eq!(s.stack(), vec![8192.0]);
}

#[test]
fn underflow_in_every_kind_of_word() {
    for line in ["dup", "drop", "emit", "abs", "sin", "swap", "over", "floor", "ceil", "-", "pow"] {
        let mut s = Session::new();
        assert_eq!(s.eval(line), Err(Error::StackUnderflow), "{}", line);
    }
    for line in ["swap", "over", "floor", "ceil", "*", "/", "%", "^"] {
        let mut s = Session::new();
        assert_eq!(s.eval(&format!("1 2 drop {}", line)), Err(Error::StackUnderflow), "{}", line);
        assert!(s.stack().is_empty(), "{}", line);
    }
}

#[test]
fn trailing_spaces_end_the_line() {
    let mut s = Session::new();
    assert_eq!(s.eval("1 2 "), Ok(()));
    assert_eq!(s.eval("+   "), Ok(()));
    assert_eq!(s.stack(), vec![3.0]);
    assert_eq!(s.eval(": inc 1 + ; "), Ok(()));
    assert_eq!(s.eval("inc"), Ok(()));
    assert_eq!(s.stack(), vec![4.0]);
}

#[test]
fn execute_carries_one_word_out() {
    let mut rpn = RPN::new();
    assert_eq!(rpn.execute(Word::Push(1f64.to_bits())), Action::Done);
    assert_eq!(rpn.execute(Word::Push(2f64.to_bits())), Action::Done);
    assert_eq!(rpn.execute(Word::Over), Action::Done);
    assert_eq!(rpn.stack().to_vec(), vec![1f64.to_bits(), 2f64.to_bits(), 1f64.to_bits()]);
    assert_eq!(
        rpn.execute(Word::Subtract),
        Action::Binary(BinaryOp::Subtract, 2f64.to_bits(), 1f64.to_bits())
    );
    assert_eq!(rpn.resume(Some(1f64.to_bits())), Action::Done);
    assert_eq!(rpn.stack().to_vec(), vec![1f64.to_bits(), 1f64.to_bits()]);
    assert_eq!(rpn.execute(Word::Pi), Action::Done);
    assert_eq!(rpn.execute(Word::Emit), Action::Emit(std::f64::consts::PI.to_bits()));
    assert_eq!(rpn.execute(Word::ClearStack), Action::Done);
    assert!(rpn.stack().is_empty());
    assert_eq!(rpn.execute(Word::Help), Action::Help);
    assert_eq!(rpn.execute(Word::Quit), Action::Quit);
}

#[test]
fn execute_rejects_what_is_no_operation() {
    for word in [Word::DefineStart, Word::DefineEnd, Word::EndOfLine, Word::Definition(0)] {
        let mut rpn = RPN::new();
        assert_eq!(rpn.execute(Word::Push(1)), Action::Done);
        assert_eq!(rpn.execute(word), Action::Failed(Error::InvalidWord));
        assert_eq!(rpn.stack().to_vec(), vec![1]);
    }
}

#[test]
fn execute_replays_a_definition() {
    let mut s = Session::new();
    assert_eq!(s.eval(": inc 1 + ;"), Ok(()));
    assert_eq!(s.eval(": inc2 inc inc ;"), Ok(()));
    assert_eq!(s.eval("5"), Ok(()));
    let first = s.rpn.execute(Word::Definition(1));
    assert_eq!(first, Action::Binary(BinaryOp::Add, 5f64.to_bits(), 1f64.to_bits()));
    assert_eq!(s.drive(first), Ok(()));
    assert_eq!(s.stack(), vec![7.0]);
}

#[test]
fn execute_goes_on_with_the_line() {
    let mut rpn = RPN::new();
    assert_eq!(rpn.eval("help dup"), Action::Help);
    assert_eq!(rpn.execute(Word::Push(3)), Action::Done);
    assert_eq!(rpn.stack().to_vec(), vec![3, 3]);
}
