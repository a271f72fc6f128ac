use polymarket_rust_rl::controller::{create_infrastructure, Controller};
use polymarket_rust_rl::seqlock::SeqLock;
use polymarket_rust_rl::spsc::SpscRingBuffer;
use polymarket_rust_rl::types::{Direction, Side};

#[derive(Debug, Clone, Copy)]
struct TradeEvent {
    timestamp_ns: u64,
    price: f64,
    quantity: f64,
    side: Side,
    market_id: u32,
}

#[derive(Debug, Clone, Copy)]
struct Signal {
    timestamp_ns: u64,
    direction: Direction,
    strength: f64,
    market_id: u32,
}

#[derive(Debug, Clone, Copy)]
struct Parameters {
    max_position: f64,
    risk_limit: f64,
    spread_threshold: f64,
    momentum_window: u32,
}

impl Default for Parameters {
    fn default() -> Self {
        Self {
            max_position: 100.0,
            risk_limit: 0.05,
            spread_threshold: 0.002,
            momentum_window: 20,
        }
    }
}

fn make_event(market_id: u32) -> TradeEvent {
    TradeEvent {
        timestamp_ns: 1,
        price: 0.55,
        quantity: 10.0,
        side: Side::Buy,
        market_id,
    }
}

type Ctrl = Controller<TradeEvent, Parameters, Signal>;

fn route(ctrl: &mut Ctrl, event: TradeEvent) -> Result<(), TradeEvent> {
    ctrl.route_event(event.market_id, event)
}

#[test]
fn new_controller() {
    let (buffers, params) = create_infrastructure::<TradeEvent, Parameters>(2, 64, Parameters::default());
    let ctrl: Ctrl = Controller::new(buffers, params);
    assert_eq!(ctrl.num_cores(), 2);
    assert_eq!(ctrl.events_published(), 0);
}

#[test]
fn publish_parameters() {
    let (buffers, params) = create_infrastructure::<TradeEvent, Parameters>(1, 64, Parameters::default());
    let mut ctrl: Ctrl = Controller::new(buffers, params);
    let new_params = Parameters {
        max_position: 500.0,
        risk_limit: 0.1,
        spread_threshold: 0.005,
        momentum_window: 50,
    };
    ctrl.publish_parameters(new_params);
    let p = ctrl.current_parameters();
    assert_eq!(p.max_position, 500.0);
    assert_eq!(p.momentum_window, 50);
}

#[test]
fn current_parameters_default() {
    let (buffers, params) = create_infrastructure::<TradeEvent, Parameters>(1, 64, Parameters::default());
    let ctrl: Ctrl = Controller::new(buffers, params);
    let p = ctrl.current_parameters();
    assert_eq!(p.max_position, 100.0);
}

#[test]
fn send_event_valid() {
    let rb = SpscRingBuffer::<TradeEvent>::new(64);
    let params = SeqLock::new(Parameters::default());
    let mut ctrl: Ctrl = Controller::new(vec![rb], params);

    assert!(ctrl.send_event(0, make_event(0)).is_ok());
    assert_eq!(ctrl.events_published(), 1);
    assert_eq!(ctrl.take_event(0).unwrap().market_id, 0);
}

#[test]
fn send_event_invalid_core() {
    let rb = SpscRingBuffer::<TradeEvent>::new(64);
    let params = SeqLock::new(Parameters::default());
    let mut ctrl: Ctrl = Controller::new(vec![rb], params);

    assert!(ctrl.send_event(5, make_event(0)).is_err());
    assert_eq!(ctrl.events_published(), 0);
}

#[test]
fn send_event_full_queue() {
    let rb = SpscRingBuffer::<TradeEvent>::new(2);
    let params = SeqLock::new(Parameters::default());
    let mut ctrl: Ctrl = Controller::new(vec![rb], params);
    assert!(ctrl.send_event(0, make_event(1)).is_ok());
    assert!(ctrl.send_event(0, make_event(2)).is_ok());
    let rejected = ctrl.send_event(0, make_event(3)).unwrap_err();
    assert_eq!(rejected.market_id, 3);
    assert_eq!(ctrl.events_published(), 2);
    assert_eq!(ctrl.queued_len(0), 2);
}

#[test]
fn route_event_basic() {
    let rb = SpscRingBuffer::<TradeEvent>::new(64);
    let params = SeqLock::new(Parameters::default());
    let mut ctrl: Ctrl = Controller::new(vec![rb], params);

    route(&mut ctrl, make_event(0)).unwrap();
    assert!(ctrl.take_event(0).is_some());
}

#[test]
fn route_event_round_robin() {
    let rb0 = SpscRingBuffer::<TradeEvent>::new(64);
    let rb1 = SpscRingBuffer::<TradeEvent>::new(64);
    let params = SeqLock::new(Parameters::default());
    let mut ctrl: Ctrl = Controller::new(vec![rb0, rb1], params);

    route(&mut ctrl, make_event(0)).unwrap();
    route(&mut ctrl, make_event(1)).unwrap();
    route(&mut ctrl, make_event(2)).unwrap();
    route(&mut ctrl, make_event(3)).unwrap();

    assert_eq!(ctrl.queued_len(0), 2);
    assert_eq!(ctrl.queued_len(1), 2);
    assert_eq!(ctrl.take_event(1).unwrap().market_id, 1);
    assert_eq!(ctrl.take_event(1).unwrap().market_id, 3);
}

#[test]
fn route_event_empty_producers() {
    let params = SeqLock::new(Parameters::default());
    let mut ctrl: Ctrl = Controller::new(Vec::new(), params);
    assert!(route(&mut ctrl, make_event(0)).is_err());
}

#[test]
fn broadcast_event() {
    let rb0 = SpscRingBuffer::<TradeEvent>::new(64);
    let rb1 = SpscRingBuffer::<TradeEvent>::new(64);
    let params = SeqLock::new(Parameters::default());
    let mut ctrl: Ctrl = Controller::new(vec![rb0, rb1], params);

    let sent = ctrl.broadcast_event(make_event(0));
    assert_eq!(sent, 2);
    assert!(ctrl.take_event(0).is_some());
    assert!(ctrl.take_event(1).is_some());
}

#[test]
fn broadcast_skips_full_queues() {
    let rb0 = SpscRingBuffer::<TradeEvent>::new(2);
    let rb1 = SpscRingBuffer::<TradeEvent>::new(4);
    let params = SeqLock::new(Parameters::default());
    let mut ctrl: Ctrl = Controller::new(vec![rb0, rb1], params);
    assert_eq!(ctrl.broadcast_event(make_event(0)), 2);
    assert_eq!(ctrl.broadcast_event(make_event(1)), 2);
    assert_eq!(ctrl.broadcast_event(make_event(2)), 1);
    assert_eq!(ctrl.events_published(), 5);
    assert_eq!(ctrl.queued_len(0), 2);
    assert_eq!(ctrl.queued_len(1), 3);
}

#[test]
fn collect_signals() {
    let params = SeqLock::new(Parameters::default());
    let mut ctrl: Ctrl = Controller::new(Vec::new(), params);

    let mut signals = vec![
        Signal {
            timestamp_ns: 1,
            direction: Direction::Long,
            strength: 0.5,
            market_id: 0,
        },
        Signal {
            timestamp_ns: 2,
            direction: Direction::Short,
            strength: 0.3,
            market_id: 1,
        },
    ];
    ctrl.collect_signals(&mut signals);
    assert!(signals.is_empty());
    let drained = ctrl.drain_collected_signals();
    assert_eq!(drained.len(), 2);
    assert_eq!(drained[0].timestamp_ns, 1);
    assert_eq!(drained[1].direction, Direction::Short);
    assert!(ctrl.drain_collected_signals().is_empty());
}

#[test]
fn drain_collected_signals_empties() {
    let params = SeqLock::new(Parameters::default());
    let mut ctrl: Ctrl = Controller::new(Vec::new(), params);
    let drained = ctrl.drain_collected_signals();
    assert!(drained.is_empty());
}

#[test]
fn events_published_count() {
    let rb = SpscRingBuffer::<TradeEvent>::new(64);
    let params = SeqLock::new(Parameters::default());
    let mut ctrl: Ctrl = Controller::new(vec![rb], params);

    for i in 0..10 {
        ctrl.send_event(0, make_event(i)).unwrap();
    }
    assert_eq!(ctrl.events_published(), 10);
}

#[test]
fn num_cores() {
    let (buffers, params) = create_infrastructure::<TradeEvent, Parameters>(4, 32, Parameters::default());
    let ctrl: Ctrl = Controller::new(buffers, params);
    assert_eq!(ctrl.num_cores(), 4);
}

#[test]
fn create_infrastructure_sizes() {
    let (buffers, _params) = create_infrastructure::<TradeEvent, Parameters>(3, 128, Parameters::default());
    assert_eq!(buffers.len(), 3);
    assert_eq!(buffers[0].capacity(), 128);
}
