//! A single-dimension control task: one real-valued state variable driven
//! by a symmetric velocity integrator under chosen accelerations, with
//! utility rewarding closeness to a target at low speed.

use max_tree::Ai;
use max_tree::AiAnalysis;
use max_tree::AiSettings;
use max_tree::Domain;
use max_tree::Node;
use max_tree::Utility;

/// Position and velocity.  All updates are by exactly representable dyadic
/// steps, so undo restores the state bit for bit.
#[derive(Clone, Copy, PartialEq, Debug)]
struct State {
    pos: f64,
    vel: f64,
}

struct Line;

const STEP: f64 = 0.25;
const TARGET: f64 = 1.0;

impl Domain for Line {
    /// The acceleration applied, kept to undo the transition.
    type Data = i8;
    type Action = i8;
    type Ctx = State;

    fn utility(&self, _data: &i8, ctx: &State) -> i64 {
        // A light speed penalty: moving towards the target must pay off
        // immediately, or greedy search stalls on the coasting plateau.
        let cost = (ctx.pos - TARGET).abs() + ctx.vel.abs() / 8.0;
        (-cost * 1024.0) as i64
    }

    fn actions(&self, _data: &i8, _ctx: &State) -> Vec<i8> {
        vec![-1, 0, 1]
    }

    fn execute(&self, _data: &i8, action: &i8, ctx: &mut State) -> Result<i8, ()> {
        ctx.vel += (*action as f64) * STEP;
        ctx.pos += ctx.vel * STEP;
        Ok(*action)
    }

    fn undo(&self, data: &i8, ctx: &mut State) {
        ctx.pos -= ctx.vel * STEP;
        ctx.vel -= (*data as f64) * STEP;
    }
}

fn finite(u: Utility) -> i64 {
    match u {
        Utility::Finite(v) => v,
        Utility::Unevaluated => panic!("utility not evaluated"),
    }
}

#[test]
fn line_execute_undo_round_trip() {
    let start = State { pos: 0.5, vel: -0.25 };
    let data = 0i8;
    for action in Line.actions(&data, &start) {
        let mut ctx = start;
        let delta = Line.execute(&data, &action, &mut ctx).unwrap();
        Line.undo(&delta, &mut ctx);
        assert_eq!(ctx, start);
        assert_eq!(Line.utility(&data, &ctx), Line.utility(&data, &start));
        assert_eq!(Line.actions(&data, &ctx), Line.actions(&data, &start));
    }
}

#[test]
fn line_greedy_path_maxes_are_monotone() {
    let max_depth = 6usize;
    let mut settings = AiSettings::new(max_depth, 0);
    settings.analysis = true;
    let mut ai = Ai { domain: Line, settings, analysis: AiAnalysis::new() };

    let mut ctx = State { pos: 0.0, vel: 0.0 };
    let mut root: Node<i8, i8> = Node::root(0);
    ai.greedy(&mut root, 0, &mut ctx);
    assert_eq!(ctx, State { pos: 0.0, vel: 0.0 });

    // Along the committed path the stored maxima never decrease: each
    // chosen child stores at least its parent's maximum.
    let mut node = &root;
    let mut last = finite(node.max);
    let path = node.optimal_path();
    assert!(!path.is_empty());
    for &i in &path {
        node = &node.children[i].1;
        let current = finite(node.max);
        assert!(current >= last);
        last = current;
    }
}

#[test]
fn line_greedy_commit_loop_improves() {
    let max_depth = 6usize;
    let mut settings = AiSettings::new(max_depth, 0);
    settings.analysis = true;
    let mut ai = Ai { domain: Line, settings, analysis: AiAnalysis::new() };

    let mut ctx = State { pos: 0.0, vel: 0.0 };
    let start_utility = Line.utility(&0, &ctx);
    let mut steps = 0;

    for _ in 0..8 {
        // A fresh root per committed step: the search estimates from the
        // current real state.
        let before = ctx;
        ai.analysis.node_count = 0;
        let mut node: Node<i8, i8> = Node::root(0);
        ai.greedy(&mut node, 0, &mut ctx);
        // Search leaves the context untouched.
        assert_eq!(ctx, before);
        // With elimination on, the live nodes of one search are a single
        // path plus the final breadth of three.
        assert!(ai.analysis.node_count <= max_depth + 3);

        if ai.update(&node, &mut ctx).is_none() {
            break;
        }
        steps += 1;
    }

    // The agent accelerates towards the target for five steps and then
    // reaches a local optimum where any further action scores worse.
    assert_eq!(steps, 5);
    assert_eq!(ctx, State { pos: 0.9375, vel: 1.25 });
    let end_utility = Line.utility(&0, &ctx);
    assert_eq!(end_utility, -224);
    assert!(end_utility > start_utility);
}
