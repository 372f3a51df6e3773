use reverse_ad::arith::{Prim, ONE, ZERO};
use reverse_ad::compile::parse_expr;
use reverse_ad::expr::Expr;
use reverse_ad::graph::Graph;
use reverse_ad::node::Node;
use reverse_ad::util::{gradient, gradient_cached, gradient_of_expr};

/// IEEE-754 double arithmetic on bit patterns.
fn float_unit(p: Prim) -> u64 {
    let b = f64::from_bits;
    let r = match p {
        Prim::Add(x, y) => b(x) + b(y),
        Prim::Sub(x, y) => b(x) - b(y),
        Prim::Mul(x, y) => b(x) * b(y),
        Prim::Div(x, y) => b(x) / b(y),
        Prim::Powf(x, y) => b(x).powf(b(y)),
        Prim::Powi(x, n) => b(x).powi(n),
        Prim::Neg(x) => -b(x),
        Prim::Exp(x) => b(x).exp(),
        Prim::Ln(x) => b(x).ln(),
        Prim::Sin(x) => b(x).sin(),
        Prim::Cos(x) => b(x).cos(),
        Prim::Tan(x) => b(x).tan(),
        Prim::Sinh(x) => b(x).sinh(),
        Prim::Cosh(x) => b(x).cosh(),
        Prim::Tanh(x) => b(x).tanh(),
        Prim::FromInt(n) => n as f64,
    };
    r.to_bits()
}

fn bits(x: f64) -> u64 {
    x.to_bits()
}

fn num(b: u64) -> f64 {
    f64::from_bits(b)
}

fn sym(i: usize) -> Box<Expr> {
    Box::new(Expr::Symbol(i))
}

/// Value and gradient of a one-operation tape over variables `x` and `y`.
fn run_binary(x: f64, y: f64, build: fn(&mut Graph, usize, usize) -> usize) -> (f64, f64, f64) {
    let mut g = Graph::new();
    let xi = g.var(bits(x));
    let yi = g.var(bits(y));
    let root = build(&mut g, xi, yi);
    let value = g.forward_step(root, &float_unit);
    g.backward_step(root, ONE, &float_unit);
    (num(value), num(g.get_gradient(xi)), num(g.get_gradient(yi)))
}

/// Value and gradient of a one-operation tape over the variable `x`.
fn run_unary(x: f64, build: fn(&mut Graph, usize) -> usize) -> (f64, f64) {
    let mut g = Graph::new();
    let xi = g.var(bits(x));
    let root = build(&mut g, xi);
    let value = g.forward_step(root, &float_unit);
    g.backward_step(root, ONE, &float_unit);
    (num(value), num(g.get_gradient(xi)))
}

/// Value of a compiled expression at a point.
fn value_at(expr: &Expr, point: &[f64]) -> f64 {
    let mut g = Graph::new();
    for x in point {
        g.var(bits(*x));
    }
    g.compile(expr.clone());
    num(g.forward(&float_unit))
}

#[test]
fn constants_are_zero_and_one() {
    assert_eq!(num(ZERO), 0.0);
    assert!(num(ZERO).is_sign_positive());
    assert_eq!(num(ONE), 1.0);
}

#[test]
fn square_by_repeated_index_accumulates() {
    let mut g = Graph::new();
    let x = g.var(bits(3.0));
    let sq = g.mul(x, x);
    assert_eq!(num(g.forward_step(sq, &float_unit)), 9.0);
    g.backward_step(sq, ONE, &float_unit);
    assert_eq!(num(g.get_gradient(x)), 6.0);
}

#[test]
fn square_plus_two_at_three() {
    let mut g = Graph::new();
    let x = g.var(bits(3.0));
    let expr = Expr::Addf(bits(2.0), Box::new(Expr::Mul(sym(x), sym(x))));
    g.compile(expr);
    assert_eq!(num(g.forward(&float_unit)), 11.0);
    g.backward(&float_unit);
    assert_eq!(num(g.get_gradient(x)), 6.0);
    assert_eq!(g.get_gradients(), vec![bits(6.0)]);
}

#[test]
fn sine_times_variable_at_zero() {
    let mut g = Graph::new();
    let x = g.var(bits(0.0));
    let y = g.var(bits(5.0));
    let expr = Expr::Mul(Box::new(Expr::Sin(sym(x))), sym(y));
    g.compile(expr);
    assert_eq!(num(g.forward(&float_unit)), 0.0);
    g.backward(&float_unit);
    assert_eq!(num(g.get_gradient(x)), 5.0);
    assert_eq!(num(g.get_gradient(y)), 0.0);
}

#[test]
fn reciprocal_at_two() {
    let mut g = Graph::new();
    let x = g.var(bits(2.0));
    g.compile(Expr::Recip(sym(x)));
    assert_eq!(num(g.forward(&float_unit)), 0.5);
    g.backward(&float_unit);
    assert_eq!(num(g.get_gradient(x)), -0.25);
}

#[test]
fn add_value_and_gradients() {
    let (v, dx, dy) = run_binary(3.0, 4.0, |g, a, b| g.add(a, b));
    assert_eq!((v, dx, dy), (7.0, 1.0, 1.0));
}

#[test]
fn sub_value_and_gradients() {
    let (v, dx, dy) = run_binary(3.0, 4.0, |g, a, b| g.sub(a, b));
    assert_eq!((v, dx, dy), (-1.0, 1.0, -1.0));
}

#[test]
fn mul_value_and_gradients() {
    let (v, dx, dy) = run_binary(3.0, 4.0, |g, a, b| g.mul(a, b));
    assert_eq!((v, dx, dy), (12.0, 4.0, 3.0));
}

#[test]
fn div_value_and_gradients() {
    let (v, dx, dy) = run_binary(3.0, 4.0, |g, a, b| g.div(a, b));
    assert_eq!((v, dx, dy), (0.75, 0.25, -0.1875));
}

#[test]
fn pow_value_and_gradients() {
    let (v, dx, dy) = run_binary(2.0, 3.0, |g, a, b| g.pow(a, b));
    assert_eq!(v, 8.0);
    // r * l^(r-1) * g
    assert_eq!(dx, 12.0);
    // ln(l) * l^(r-1) * g, the rule as it stands
    assert_eq!(dy, 2.0f64.ln() * 4.0);
}

#[test]
fn addf_value_and_gradient() {
    let (v, dx) = run_unary(3.0, |g, a| g.addf(bits(2.5), a));
    assert_eq!((v, dx), (5.5, 1.0));
}

#[test]
fn subf_value_and_gradient() {
    let (v, dx) = run_unary(3.0, |g, a| g.subf(a, bits(2.5)));
    assert_eq!((v, dx), (0.5, 1.0));
}

#[test]
fn mulf_value_and_gradient() {
    let (v, dx) = run_unary(3.0, |g, a| g.mulf(bits(2.5), a));
    assert_eq!((v, dx), (7.5, 2.5));
}

#[test]
fn powf_value_and_gradient() {
    let (v, dx) = run_unary(4.0, |g, a| g.powf(a, bits(1.5)));
    assert_eq!(v, 4.0f64.powf(1.5));
    assert_eq!(dx, 1.5 * 4.0f64.powf(0.5) * 1.0);
    assert_eq!(v, 8.0);
    assert_eq!(dx, 3.0);
}

#[test]
fn powi_value_and_gradient() {
    let (v, dx) = run_unary(2.0, |g, a| g.powi(a, 3));
    assert_eq!((v, dx), (8.0, 12.0));
    let (v, dx) = run_unary(2.0, |g, a| g.powi(a, -1));
    assert_eq!((v, dx), (0.5, -0.25));
}

#[test]
fn neg_value_and_gradient_as_it_stands() {
    let (v, dx) = run_unary(3.0, |g, a| g.neg(a));
    assert_eq!(v, -3.0);
    // the rule hands down -g * x
    assert_eq!(dx, -3.0);
}

#[test]
fn recip_value_and_gradient() {
    let (v, dx) = run_unary(4.0, |g, a| g.recip(a));
    assert_eq!((v, dx), (0.25, -0.0625));
}

#[test]
fn exp_value_and_gradient() {
    let (v, dx) = run_unary(1.25, |g, a| g.exp(a));
    assert_eq!(v, 1.25f64.exp());
    assert_eq!(dx, 1.25f64.exp() * 1.0);
}

#[test]
fn ln_value_and_gradient() {
    let (v, dx) = run_unary(4.0, |g, a| g.ln(a));
    assert_eq!(v, 4.0f64.ln());
    assert_eq!(dx, 0.25);
}

#[test]
fn sin_value_and_gradient() {
    let (v, dx) = run_unary(0.7, |g, a| g.sin(a));
    assert_eq!(v, 0.7f64.sin());
    assert_eq!(dx, 0.7f64.cos() * 1.0);
}

#[test]
fn cos_value_and_gradient() {
    let (v, dx) = run_unary(0.7, |g, a| g.cos(a));
    assert_eq!(v, 0.7f64.cos());
    assert_eq!(dx, -(0.7f64.sin()) * 1.0);
}

#[test]
fn tan_value_and_gradient() {
    let (v, dx) = run_unary(0.7, |g, a| g.tan(a));
    assert_eq!(v, 0.7f64.tan());
    assert_eq!(dx, (1.0 + 0.7f64.tan().powi(2)) * 1.0);
}

#[test]
fn sinh_value_and_gradient() {
    let (v, dx) = run_unary(0.7, |g, a| g.sinh(a));
    assert_eq!(v, 0.7f64.sinh());
    assert_eq!(dx, 0.7f64.cosh() * 1.0);
}

#[test]
fn cosh_value_and_gradient() {
    let (v, dx) = run_unary(0.7, |g, a| g.cosh(a));
    assert_eq!(v, 0.7f64.cosh());
    assert_eq!(dx, 0.7f64.sinh() * 1.0);
}

#[test]
fn tanh_value_and_gradient() {
    let (v, dx) = run_unary(0.7, |g, a| g.tanh(a));
    assert_eq!(v, 0.7f64.tanh());
    assert_eq!(dx, (1.0 - 0.7f64.tanh().powi(2)) * 1.0);
}

#[test]
fn node_tables_agree_with_the_tape() {
    let n = Node::Div(0, 1);
    assert_eq!(num(n.apply(bits(3.0), bits(4.0), &float_unit)), 0.75);
    let (dl, dr) = n.differentiate(bits(3.0), bits(4.0), ONE, &float_unit);
    assert_eq!((num(dl), num(dr)), (0.25, -0.1875));
    let m = Node::Mulf(bits(2.0), 0);
    let (dl, dr) = m.differentiate(ZERO, ZERO, bits(3.0), &float_unit);
    assert_eq!((num(dl), dr), (6.0, ZERO));
}

#[test]
fn node_operands() {
    assert_eq!(Node::Var(0).first_operand(), None);
    assert_eq!(Node::Var(0).second_operand(), None);
    assert_eq!(Node::Sub(1, 2).first_operand(), Some(1));
    assert_eq!(Node::Sub(1, 2).second_operand(), Some(2));
    assert_eq!(Node::Addf(bits(1.0), 7).first_operand(), Some(7));
    assert_eq!(Node::Addf(bits(1.0), 7).second_operand(), None);
    assert_eq!(Node::Powi(5, 2).first_operand(), Some(5));
    assert_eq!(Node::Tanh(4).first_operand(), Some(4));
    assert!(!Node::Add(0, 1).needs_values());
    assert!(!Node::Sub(0, 1).needs_values());
    assert!(!Node::Addf(ZERO, 1).needs_values());
    assert!(!Node::Subf(1, ZERO).needs_values());
    assert!(!Node::Mulf(ZERO, 1).needs_values());
    assert!(Node::Mul(0, 1).needs_values());
    assert!(Node::Neg(0).needs_values());
    assert!(Node::Powi(0, 2).needs_values());
}

#[test]
fn forward_equals_direct_evaluation() {
    // (x * y + 2) / sin(x) - exp(y)^3
    let (x, y) = (0.8f64, -1.3f64);
    let expr = Expr::Sub(
        Box::new(Expr::Div(
            Box::new(Expr::Addf(bits(2.0), Box::new(Expr::Mul(sym(0), sym(1))))),
            Box::new(Expr::Sin(sym(0))),
        )),
        Box::new(Expr::Powi(Box::new(Expr::Exp(sym(1))), 3)),
    );
    let direct = (2.0 + x * y) / x.sin() - y.exp().powi(3);
    assert_eq!(value_at(&expr, &[x, y]), direct);
}

#[test]
fn forward_returns_a_cached_value() {
    let mut g = Graph::new();
    let x = g.var(bits(3.0));
    let sq = g.mul(x, x);
    assert_eq!(num(g.forward_step(sq, &float_unit)), 9.0);
    // a new binding without a reset leaves the cached product in place
    g.subs_var(x, bits(5.0));
    assert_eq!(num(g.forward_step(sq, &float_unit)), 9.0);
    g.reset();
    assert_eq!(num(g.forward_step(sq, &float_unit)), 25.0);
}

#[test]
fn backward_evaluates_operands_by_itself() {
    let mut g = Graph::new();
    let x = g.var(bits(3.0));
    let y = g.var(bits(4.0));
    let p = g.mul(x, y);
    let s = g.sin(p);
    g.backward_step(s, ONE, &float_unit);
    assert_eq!(num(g.get_gradient(x)), 12.0f64.cos() * 1.0 * 4.0);
    assert_eq!(num(g.get_gradient(y)), 12.0f64.cos() * 1.0 * 3.0);
}

#[test]
fn backward_of_sums_needs_no_values() {
    let mut g = Graph::new();
    g.touch_vars(2);
    let s = g.add(0, 1);
    let d = g.sub(s, 1);
    g.backward_step(d, ONE, &float_unit);
    assert_eq!(num(g.get_gradient(0)), 1.0);
    assert_eq!(num(g.get_gradient(1)), 0.0);
}

#[test]
fn gradients_accumulate_across_backward_passes() {
    let mut g = Graph::new();
    let x = g.var(bits(3.0));
    let sq = g.mul(x, x);
    g.backward_step(sq, ONE, &float_unit);
    g.backward_step(sq, ONE, &float_unit);
    assert_eq!(num(g.get_gradient(x)), 12.0);
    g.reset();
    assert_eq!(num(g.get_gradient(x)), 0.0);
}

#[test]
fn variables_are_listed_in_declaration_order() {
    let mut g = Graph::new();
    let a = g.var(bits(1.0));
    let s = g.sin(a);
    let b = g.var(bits(2.0));
    g.touch_vars(2);
    assert_eq!((a, s, b), (0, 1, 2));
    assert_eq!(g.len(), 5);
    assert_eq!(g.get_vars(), vec![0, 2, 3, 4]);
    assert_eq!(g.get_var(0), 0);
    assert_eq!(g.get_var(1), 2);
    assert_eq!(g.get_var(3), 4);
    assert_eq!(format!("{:?}", g.get_symbol(1)), "Symbol(2)");
    assert_eq!(format!("{:?}", g.get_symbols()), "[Symbol(0), Symbol(2), Symbol(3), Symbol(4)]");
}

#[test]
fn touch_vars_of_nothing_changes_nothing() {
    let mut g = Graph::default();
    g.touch_vars(0);
    assert_eq!(g.len(), 0);
    assert!(g.get_vars().is_empty());
    assert!(g.get_gradients().is_empty());
    assert_eq!(g.get_compiled(), None);
}

#[test]
fn subs_vars_binds_a_prefix() {
    let mut g = Graph::new();
    g.touch_vars(3);
    g.subs_var(2, bits(10.0));
    g.subs_vars(&[bits(1.0), bits(2.0)]);
    let s = g.add(0, 1);
    let t = g.add(s, 2);
    assert_eq!(num(g.forward_step(t, &float_unit)), 13.0);
    g.subs_vars(&[]);
    g.reset();
    assert_eq!(num(g.forward_step(t, &float_unit)), 13.0);
}

#[test]
fn gradients_has_one_entry_per_variable() {
    let mut g = Graph::new();
    let x = g.var(bits(2.0));
    let y = g.var(bits(3.0));
    let z = g.var(bits(5.0));
    assert_eq!(g.get_gradients(), vec![ZERO, ZERO, ZERO]);
    // y is used twice, z not at all
    let expr = Expr::Mul(Box::new(Expr::Mul(sym(y), sym(x))), sym(y));
    g.compile(expr);
    g.forward(&float_unit);
    g.backward(&float_unit);
    let grads = g.get_gradients();
    assert_eq!(grads.len(), 3);
    assert_eq!(num(grads[0]), 9.0);
    assert_eq!(num(grads[1]), 12.0);
    assert_eq!(num(grads[2]), 0.0);
    assert_eq!(grads[0], g.get_gradient(x));
    assert_eq!(grads[1], g.get_gradient(y));
    assert_eq!(grads[2], g.get_gradient(z));
}

#[test]
fn compile_lowers_operands_first_and_shares_nothing() {
    let mut g = Graph::new();
    let x = g.var(bits(3.0));
    let sq = Expr::Mul(sym(x), sym(x));
    let expr = Expr::Add(Box::new(sq.clone()), Box::new(sq));
    let root = parse_expr(expr, &mut g);
    // two products and one sum, each in a slot of its own
    assert_eq!(g.len(), 4);
    assert_eq!(root, 3);
    assert_eq!(g.get_compiled(), None);
    assert_eq!(num(g.forward_step(root, &float_unit)), 18.0);
    g.backward_step(root, ONE, &float_unit);
    assert_eq!(num(g.get_gradient(x)), 12.0);
}

#[test]
fn compile_of_a_symbol_adds_nothing() {
    let mut g = Graph::new();
    let x = g.var(bits(7.0));
    g.compile(Expr::Symbol(x));
    assert_eq!(g.len(), 1);
    assert_eq!(g.get_compiled(), Some(0));
    assert_eq!(num(g.forward(&float_unit)), 7.0);
    g.backward(&float_unit);
    assert_eq!(num(g.get_gradient(x)), 1.0);
}

#[test]
fn compile_again_replaces_the_root_and_keeps_the_slots() {
    let mut g = Graph::new();
    let x = g.var(bits(3.0));
    g.compile(Expr::Sin(sym(x)));
    assert_eq!(g.get_compiled(), Some(1));
    g.compile(Expr::Mulf(bits(2.0), sym(x)));
    assert_eq!(g.get_compiled(), Some(2));
    assert_eq!(g.len(), 3);
    assert_eq!(num(g.forward(&float_unit)), 6.0);
}

#[test]
fn reset_and_rebind_equal_a_fresh_tape() {
    let build = |g: &mut Graph| {
        g.touch_vars(2);
        let e = Expr::Div(
            Box::new(Expr::Exp(sym(0))),
            Box::new(Expr::Addf(bits(1.0), Box::new(Expr::Mul(sym(1), sym(1))))),
        );
        g.compile(e);
    };
    let first = [bits(0.3), bits(-1.1)];
    let second = [bits(2.0), bits(0.5)];

    let mut used = Graph::new();
    build(&mut used);
    used.subs_vars(&first);
    used.forward(&float_unit);
    used.backward(&float_unit);
    used.reset();
    used.subs_vars(&second);
    let v1 = used.forward(&float_unit);
    used.backward(&float_unit);

    let mut fresh = Graph::new();
    build(&mut fresh);
    fresh.subs_vars(&second);
    let v2 = fresh.forward(&float_unit);
    fresh.backward(&float_unit);

    assert_eq!(v1, v2);
    assert_eq!(used.get_gradients(), fresh.get_gradients());
    let direct = 2.0f64.exp() / (1.0 + 0.5 * 0.5);
    assert_eq!(num(v1), direct);
}

#[test]
fn gradient_matches_central_differences() {
    // sin(x) * y + exp(x) / y + ln(y) * x^3 - tanh(x - y) + cosh(y)^1.5
    let expr = Expr::Add(
        Box::new(Expr::Sub(
            Box::new(Expr::Add(
                Box::new(Expr::Add(
                    Box::new(Expr::Mul(Box::new(Expr::Sin(sym(0))), sym(1))),
                    Box::new(Expr::Div(Box::new(Expr::Exp(sym(0))), sym(1))),
                )),
                Box::new(Expr::Mul(Box::new(Expr::Ln(sym(1))), Box::new(Expr::Powi(sym(0), 3)))),
            )),
            Box::new(Expr::Tanh(Box::new(Expr::Sub(sym(0), sym(1))))),
        )),
        Box::new(Expr::Powf(Box::new(Expr::Cosh(sym(1))), bits(1.5))),
    );
    let point = [0.7f64, 1.9f64];
    let grads = gradient_of_expr(expr.clone(), &[bits(point[0]), bits(point[1])], &float_unit);
    assert_eq!(grads.len(), 2);
    let h = 1e-6;
    for k in 0..2 {
        let mut up = point;
        let mut down = point;
        up[k] += h;
        down[k] -= h;
        let approx = (value_at(&expr, &up) - value_at(&expr, &down)) / (2.0 * h);
        let exact = num(grads[k]);
        assert!(((exact - approx) / exact).abs() < 1e-6);
    }
}

#[test]
fn gradient_matches_central_differences_for_the_rest() {
    // cos(x) * tan(y) + sinh(x) / (2 * y) + (1 / x) + x^y, differentiated in x
    let expr = Expr::Add(
        Box::new(Expr::Add(
            Box::new(Expr::Add(
                Box::new(Expr::Mul(Box::new(Expr::Cos(sym(0))), Box::new(Expr::Tan(sym(1))))),
                Box::new(Expr::Div(
                    Box::new(Expr::Sinh(sym(0))),
                    Box::new(Expr::Mulf(bits(2.0), sym(1))),
                )),
            )),
            Box::new(Expr::Recip(Box::new(Expr::Subf(sym(0), bits(0.25))))),
        )),
        Box::new(Expr::Pow(sym(0), sym(2))),
    );
    // the exponent is a variable of its own, so that only the base is probed
    let point = [1.3f64, 0.4f64, 2.5f64];
    let at: Vec<u64> = point.iter().map(|x| bits(*x)).collect();
    let grads = gradient_of_expr(expr.clone(), &at, &float_unit);
    assert_eq!(grads.len(), 3);
    let h = 1e-6;
    for k in 0..2 {
        let mut up = point;
        let mut down = point;
        up[k] += h;
        down[k] -= h;
        let approx = (value_at(&expr, &up) - value_at(&expr, &down)) / (2.0 * h);
        let exact = num(grads[k]);
        assert!(((exact - approx) / exact).abs() < 1e-6);
    }
}

#[test]
fn gradient_of_a_function_of_symbols() {
    let f = |s: &[Expr]| s[0].clone().mul(s[1].clone()).add(s[0].sin());
    let grads = gradient(f, &[bits(0.5), bits(3.0)], &float_unit);
    assert_eq!(grads.len(), 2);
    assert_eq!(num(grads[0]), 0.0 + 3.0 * 1.0 + 0.5f64.cos() * 1.0);
    assert_eq!(num(grads[1]), 0.5);
}

#[test]
fn gradient_of_no_variables() {
    let grads = gradient_of_expr(Expr::Symbol(0), &[bits(4.0)], &float_unit);
    assert_eq!(grads, vec![ONE]);
    let f = |_: &[Expr]| Expr::Symbol(0);
    assert_eq!(gradient(f, &[bits(4.0)], &float_unit), vec![ONE]);
}

#[test]
fn gradient_cached_reuses_the_tape() {
    let mut g = Graph::new();
    g.touch_vars(2);
    g.compile(Expr::Mul(Box::new(Expr::Mul(sym(0), sym(0))), sym(1)));
    let slots = g.len();
    let (v, grads) = gradient_cached(&mut g, &[bits(3.0), bits(2.0)], &float_unit);
    assert_eq!(num(v), 18.0);
    assert_eq!(grads, vec![bits(12.0), bits(9.0)]);
    let (v, grads) = gradient_cached(&mut g, &[bits(-1.0), bits(4.0)], &float_unit);
    assert_eq!(num(v), 4.0);
    assert_eq!(grads, vec![bits(-8.0), bits(1.0)]);
    // fewer values than variables: the rest keep their binding
    let (v, grads) = gradient_cached(&mut g, &[bits(2.0)], &float_unit);
    assert_eq!(num(v), 16.0);
    assert_eq!(grads, vec![bits(16.0), bits(4.0)]);
    assert_eq!(g.len(), slots);
}

#[test]
fn expression_builders_make_the_documented_trees() {
    let x = || Expr::Symbol(0);
    let y = || Expr::Symbol(1);
    let c = bits(2.0);
    let show = |e: Expr| format!("{:?}", e);
    assert_eq!(show(x().neg()), "Neg(Symbol(0))");
    assert_eq!(show(x().add(y())), "Add(Symbol(0), Symbol(1))");
    assert_eq!(show(x().sub(y())), "Sub(Symbol(0), Symbol(1))");
    assert_eq!(show(x().mul(y())), "Mul(Symbol(0), Symbol(1))");
    assert_eq!(show(x().div(y())), "Div(Symbol(0), Symbol(1))");
    assert_eq!(show(x().add_scalar(c)), format!("Addf({}, Symbol(0))", c));
    assert_eq!(show(Expr::scalar_add(c, x())), format!("Addf({}, Symbol(0))", c));
    assert_eq!(show(x().sub_scalar(c)), format!("Subf(Symbol(0), {})", c));
    assert_eq!(show(Expr::scalar_sub(c, x())), format!("Neg(Subf(Symbol(0), {}))", c));
    assert_eq!(show(x().mul_scalar(c)), format!("Mulf({}, Symbol(0))", c));
    assert_eq!(show(Expr::scalar_mul(c, x())), format!("Mulf({}, Symbol(0))", c));
    assert_eq!(show(x().div_scalar(c, &float_unit)), format!("Mulf({}, Symbol(0))", bits(0.5)));
    assert_eq!(show(Expr::scalar_div(c, x())), format!("Mulf({}, Recip(Symbol(0)))", c));
    assert_eq!(show(x().pow(y())), "Pow(Symbol(0), Symbol(1))");
    assert_eq!(show(x().powf(c)), format!("Powf(Symbol(0), {})", c));
    assert_eq!(show(x().powi(-3)), "Powi(Symbol(0), -3)");
    assert_eq!(show(x().exp()), "Exp(Symbol(0))");
    assert_eq!(show(x().ln()), "Ln(Symbol(0))");
    assert_eq!(show(x().sin()), "Sin(Symbol(0))");
    assert_eq!(show(x().cos()), "Cos(Symbol(0))");
    assert_eq!(show(x().tan()), "Tan(Symbol(0))");
    assert_eq!(show(x().sinh()), "Sinh(Symbol(0))");
    assert_eq!(show(x().cosh()), "Cosh(Symbol(0))");
    assert_eq!(show(x().tanh()), "Tanh(Symbol(0))");
    let (s, k) = x().sin_cos();
    assert_eq!((show(s), show(k)), ("Sin(Symbol(0))".to_string(), "Cos(Symbol(0))".to_string()));
    let (s, k) = x().sinh_cosh();
    assert_eq!((show(s), show(k)), ("Sinh(Symbol(0))".to_string(), "Cosh(Symbol(0))".to_string()));
}

#[test]
fn expression_clone_is_a_copy() {
    let e = Expr::Sub(
        Box::new(Expr::Powi(Box::new(Expr::Ln(sym(1))), 2)),
        Box::new(Expr::Mulf(bits(0.5), Box::new(Expr::Tanh(sym(0))))),
    );
    assert_eq!(format!("{:?}", e.clone()), format!("{:?}", e));
}

#[test]
fn scalar_minus_expression_evaluates_to_the_difference() {
    let e = Expr::scalar_sub(bits(10.0), Expr::Symbol(0));
    assert_eq!(value_at(&e, &[4.0]), 6.0);
    let q = Expr::Symbol(0).div_scalar(bits(4.0), &float_unit);
    assert_eq!(value_at(&q, &[10.0]), 2.5);
}

#[test]
fn readiness_follows_bindings_and_cache() {
    let mut g = Graph::new();
    g.touch_vars(2);
    let s = g.add(0, 1);
    let p = g.mul(s, 1);
    assert!(!g.is_ready(0));
    assert!(!g.is_ready(p));
    // sums hand gradients down without reading a value
    assert!(g.is_back_ready(s));
    assert!(!g.is_back_ready(p));
    g.subs_var(1, bits(2.0));
    assert!(g.is_ready(1));
    assert!(!g.is_ready(s));
    assert!(!g.is_back_ready(p));
    g.subs_var(0, bits(5.0));
    assert!(g.is_ready(s));
    assert!(g.is_ready(p));
    assert!(g.is_back_ready(p));
    // a slot that does not exist is ready for nothing
    assert!(!g.is_ready(4));
    assert!(!g.is_back_ready(4));
    assert_eq!(num(g.forward_step(p, &float_unit)), 14.0);
}

#[test]
fn a_cached_value_hides_an_unbound_variable() {
    let mut g = Graph::new();
    let x = g.var(bits(3.0));
    let sq = g.mul(x, x);
    g.forward_step(sq, &float_unit);
    g.touch_vars(1);
    let sum = g.add(sq, 2);
    assert!(!g.is_ready(sum));
    let twice = g.addf(bits(1.0), sq);
    assert!(g.is_ready(twice));
    assert_eq!(num(g.forward_step(twice, &float_unit)), 10.0);
}

#[test]
fn is_var_tells_variables_from_operations() {
    let mut g = Graph::new();
    let x = g.var(bits(1.0));
    let e = g.exp(x);
    assert!(g.is_var(x));
    assert!(!g.is_var(e));
    assert!(!g.is_var(2));
}

#[test]
fn symbols_below_a_bound() {
    let e = Expr::Add(sym(0), Box::new(Expr::Cos(sym(3))));
    assert!(e.has_symbols_below(4));
    assert!(!e.has_symbols_below(3));
    assert!(!Expr::Symbol(0).has_symbols_below(0));
    assert!(Expr::Powi(sym(1), 2).has_symbols_below(2));
}

#[test]
fn forward_twice_asks_nothing_new() {
    let calls = std::cell::Cell::new(0u32);
    let counting = |p: Prim| {
        calls.set(calls.get() + 1);
        float_unit(p)
    };
    let mut g = Graph::new();
    let x = g.var(bits(3.0));
    let sq = g.mul(x, x);
    // the square is used twice and computed once
    let sum = g.add(sq, sq);
    assert_eq!(num(g.forward_step(sum, &counting)), 18.0);
    assert_eq!(calls.get(), 2);
    assert_eq!(num(g.forward_step(sum, &counting)), 18.0);
    assert_eq!(calls.get(), 2);
}

#[test]
fn backward_gives_the_same_gradients_with_or_without_forward() {
    let build = |g: &mut Graph| {
        let x = g.var(bits(0.3));
        let y = g.var(bits(1.7));
        let e = Expr::Mul(Box::new(Expr::Exp(sym(x))), Box::new(Expr::Ln(sym(y))));
        g.compile(e);
    };
    let mut with = Graph::new();
    build(&mut with);
    with.forward(&float_unit);
    with.backward(&float_unit);
    let mut without = Graph::new();
    build(&mut without);
    without.backward(&float_unit);
    assert_eq!(with.get_gradients(), without.get_gradients());
}

#[test]
fn reset_and_partial_rebind_equal_a_fresh_tape() {
    let build = |g: &mut Graph, rest: f64| {
        g.touch_vars(1);
        g.var(bits(rest));
        g.compile(Expr::Pow(sym(0), sym(1)));
    };
    let mut used = Graph::new();
    build(&mut used, 3.0);
    used.subs_vars(&[bits(2.0)]);
    used.forward(&float_unit);
    used.backward(&float_unit);
    let (v1, g1) = gradient_cached(&mut used, &[bits(1.5)], &float_unit);

    let mut fresh = Graph::new();
    build(&mut fresh, 3.0);
    fresh.subs_vars(&[bits(1.5)]);
    let v2 = fresh.forward(&float_unit);
    fresh.backward(&float_unit);

    assert_eq!(v1, v2);
    assert_eq!(g1, fresh.get_gradients());
    assert_eq!(num(v1), 3.375);
}

#[test]
fn derived_slots_gather_no_gradient() {
    let mut g = Graph::new();
    let x = g.var(bits(1.5));
    let y = g.var(bits(-2.0));
    let p = g.mul(x, y);
    let e = g.exp(p);
    let s = g.add(e, p);
    g.forward_step(s, &float_unit);
    g.backward_step(s, ONE, &float_unit);
    assert_eq!(g.get_gradient(p), ZERO);
    assert_eq!(g.get_gradient(e), ZERO);
    assert_eq!(g.get_gradient(s), ZERO);
    // the product feeds the sum twice: once through the exponential, once directly
    let through_exp = (-3.0f64).exp() * 1.0;
    assert_eq!(num(g.get_gradient(x)), (0.0 + -2.0 * through_exp) + -2.0 * 1.0);
    assert_eq!(num(g.get_gradient(y)), (0.0 + 1.5 * through_exp) + 1.5 * 1.0);
}

#[test]
fn literal_over_expression_evaluates_to_the_quotient() {
    let mut g = Graph::default();
    let x = g.var(bits(4.0));
    let e = Expr::scalar_div(bits(2.0), g.get_symbol(0));
    g.compile(e);
    assert_eq!(num(g.forward(&float_unit)), 0.5);
    g.backward(&float_unit);
    // d/dx (2 / x) = -2 / x^2
    assert_eq!(num(g.get_gradient(x)), -0.125);
    let grads = gradient(
        |s: &[Expr]| Expr::scalar_div(bits(2.0), s[0].clone()),
        &[bits(4.0)],
        &float_unit,
    );
    assert_eq!(grads, vec![bits(-0.125)]);
}

#[test]
fn the_rule_of_an_integer_power_needs_a_lower_exponent() {
    assert!(Node::Powi(0, 3).has_rule());
    assert!(Node::Powi(0, i32::MIN + 1).has_rule());
    assert!(!Node::Powi(0, i32::MIN).has_rule());
    assert!(Node::Powf(0, bits(2.0)).has_rule());
    assert!(Node::Var(0).has_rule());
    let (d, _) = Node::Powi(0, i32::MIN + 1).differentiate(bits(1.0), ZERO, ONE, &float_unit);
    assert_eq!(num(d), ((i32::MIN + 1) as f64) * 1.0f64.powi(i32::MIN) * 1.0);

    let least = Expr::Powi(sym(0), i32::MIN);
    assert!(!least.has_rules_defined());
    assert!(!Expr::Sin(Box::new(least.clone())).has_rules_defined());
    assert!(Expr::Powi(sym(0), -7).has_rules_defined());
    assert!(Expr::Mul(sym(0), sym(1)).has_rules_defined());

    // such a power can be evaluated, and nothing can be propagated through it
    let mut g = Graph::new();
    let x = g.var(bits(1.0));
    let p = g.powi(x, i32::MIN);
    let s = g.sin(p);
    assert!(g.is_ready(s));
    assert!(!g.is_back_ready(p));
    assert!(!g.is_back_ready(s));
    assert!(g.is_back_ready(x));
    assert_eq!(num(g.forward_step(p, &float_unit)), 1.0);
}
