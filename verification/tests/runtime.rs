use ohua_rs::runtime::arcs::{ArcInput, DeadEndArc, DispatchQueue};
use ohua_rs::runtime::lang::{
    collect, id, ifFun, if_signals, recurFun, select, select_branch, send_once, seqFun, smapFun, smap_dispatch, smap_header, smap_plan,
    unitFn, Collector, SmapSignal, Unit,
};
use ohua_rs::runtime::{recv_result, send_result, RunError};
use std::sync::mpsc::channel;

#[test]
fn dead_end_drops_everything() {
    let d = DeadEndArc::default();
    assert!(d.dispatch(5).is_ok());
    assert!(ArcInput::<String>::dispatch(&d, "x".to_string()).is_ok());
}

#[test]
fn dispatch_queue_clones_to_every_receiver() {
    let (s1, r1) = channel();
    let (s2, r2) = channel();
    let q = DispatchQueue::new(vec![s1, s2]);
    assert!(q.dispatch(7).is_ok());
    assert!(q.dispatch(8).is_ok());
    assert_eq!(r1.recv().unwrap(), 7);
    assert_eq!(r2.recv().unwrap(), 7);
    assert_eq!(r1.recv().unwrap(), 8);
    assert_eq!(r2.recv().unwrap(), 8);
}

#[test]
fn dispatch_queue_reports_a_closed_receiver() {
    let (s1, r1) = channel::<i32>();
    drop(r1);
    let q = DispatchQueue::new(vec![s1]);
    assert!(q.dispatch(1).is_err());
}

#[test]
fn send_once_holds_its_literal() {
    let r = send_once(42);
    assert_eq!(r.recv().unwrap(), 42);
    assert!(r.recv().is_err());
}

#[test]
fn collect_gathers_the_announced_number() {
    let (ns, nr) = channel();
    let (ds, dr) = channel();
    let (os, or) = channel();
    ns.send(2usize).unwrap();
    ds.send("a").unwrap();
    ds.send("b").unwrap();
    ds.send("c").unwrap();
    assert!(collect(&nr, &dr, &os).is_ok());
    assert_eq!(or.recv().unwrap(), vec!["a", "b"]);
    assert_eq!(dr.recv().unwrap(), "c");
}

#[test]
fn collect_fails_on_a_closed_input() {
    let (ns, nr) = channel::<usize>();
    let (_ds, dr) = channel::<i32>();
    let (os, _or) = channel();
    drop(ns);
    assert!(collect(&nr, &dr, &os) == Err(RunError::RecvFailed));
}

#[test]
fn select_forwards_the_chosen_branch() {
    let (cs, cr) = channel();
    let (ts, tr) = channel();
    let (es, er) = channel();
    let (os, or) = channel();
    ts.send(1).unwrap();
    es.send(2).unwrap();
    cs.send(false).unwrap();
    assert!(select(&cr, &tr, &er, &os).is_ok());
    assert_eq!(or.recv().unwrap(), 2);
    cs.send(true).unwrap();
    assert!(select(&cr, &tr, &er, &os).is_ok());
    assert_eq!(or.recv().unwrap(), 1);
}

#[test]
fn if_activates_one_branch() {
    assert_eq!(if_signals(true), ((true, 1), (true, 0)));
    assert_eq!(if_signals(false), ((true, 0), (true, 1)));
    let (cs, cr) = channel();
    let (ts, tr) = channel();
    let (fs, fr) = channel();
    cs.send(true).unwrap();
    assert!(ifFun(&cr, &ts, &fs).is_ok());
    assert_eq!(tr.recv().unwrap(), (true, 1));
    assert_eq!(fr.recv().unwrap(), (true, 0));
}

#[test]
fn smap_announces_size_then_elements() {
    let (is, ir) = channel();
    let (ds, dr) = channel();
    let (cs, cr) = channel();
    let (ks, kr) = channel();
    is.send(vec![10, 20, 30]).unwrap();
    assert!(smapFun(&ir, &ds, &cs, &ks).is_ok());
    assert_eq!(kr.recv().unwrap(), 3);
    assert_eq!(cr.recv().unwrap(), (true, 3));
    assert_eq!(dr.recv().unwrap(), 10);
    assert_eq!(dr.recv().unwrap(), 20);
    assert_eq!(dr.recv().unwrap(), 30);
}

#[test]
fn smap_of_an_empty_vector() {
    let (is, ir) = channel::<Vec<i32>>();
    let (ds, dr) = channel();
    let (cs, cr) = channel();
    let (ks, kr) = channel();
    is.send(vec![]).unwrap();
    assert!(smapFun(&ir, &ds, &cs, &ks).is_ok());
    assert_eq!(kr.recv().unwrap(), 0);
    assert_eq!(cr.recv().unwrap(), (true, 0));
    drop(ds);
    assert!(dr.recv().is_err());
}

#[test]
fn simple_operators() {
    assert_eq!(id(3), 3);
    assert_eq!(seqFun("x"), (true, 1));
    assert_eq!(unitFn(|| 5, Unit {}), 5);
    let (_a, ar) = channel::<i32>();
    let (_b, br) = channel::<i32>();
    let (_c, cr) = channel::<i32>();
    let (_d, dr) = channel::<i32>();
    let (es, _er) = channel();
    let (fs, _fr) = channel();
    let (gs, _gr) = channel();
    assert!(recurFun(&ar, &br, &cr, &dr, &es, &fs, &gs).is_ok());
}

#[test]
fn errors_of_sending_and_receiving() {
    let (s, r) = channel::<i32>();
    drop(r);
    assert!(send_result(s.send(1)) == Err(RunError::SendFailed));
    let (s2, r2) = channel::<i32>();
    drop(s2);
    assert!(recv_result(r2.recv()) == Err(RunError::RecvFailed));
    let (s3, r3) = channel::<i32>();
    s3.send(4).unwrap();
    assert!(recv_result(r3.recv()) == Ok(4));
}

#[test]
fn smap_header_announces_the_size() {
    assert_eq!(smap_header(3), (3, (true, 3)));
    assert_eq!(smap_header(0), (0, (true, 0)));
}

#[test]
fn empty_dispatch_queue_succeeds() {
    let q: DispatchQueue<i32> = DispatchQueue::new(vec![]);
    assert!(q.dispatch(7).is_ok());
}

#[test]
fn smap_plan_with_a_known_size() {
    let p = smap_plan(vec![10, 20, 30], Some(3));
    assert_eq!(
        p,
        vec![
            SmapSignal::Count(3),
            SmapSignal::Control((true, 3)),
            SmapSignal::Element(10),
            SmapSignal::Element(20),
            SmapSignal::Element(30),
        ]
    );
    assert_eq!(smap_plan(Vec::<i32>::new(), Some(0)), vec![SmapSignal::Count(0), SmapSignal::Control((true, 0))]);
}

#[test]
fn smap_plan_with_an_unknown_size() {
    let p = smap_plan(vec!["a", "b"], None);
    assert_eq!(
        p,
        vec![
            SmapSignal::Element("a"),
            SmapSignal::Control((false, 1)),
            SmapSignal::Element("b"),
            SmapSignal::Control((false, 1)),
            SmapSignal::Count(2),
            SmapSignal::Control((true, 0)),
        ]
    );
}

#[test]
fn select_reads_the_branch_of_the_decision() {
    let (_ts, tr) = channel::<i32>();
    let (_es, er) = channel::<i32>();
    assert!(std::ptr::eq(select_branch(true, &tr, &er), &tr));
    assert!(std::ptr::eq(select_branch(false, &tr, &er), &er));
}

#[test]
fn collector_keeps_the_order_of_arrival() {
    let mut c: Collector<&str> = Collector::new(2);
    assert!(!c.is_complete());
    c.add("x");
    c.add("y");
    assert!(c.is_complete());
    assert_eq!(c.into_values(), vec!["x", "y"]);
    assert!(Collector::<i32>::new(0).is_complete());
}

#[test]
fn smap_stops_at_the_first_failed_dispatch() {
    let (is, ir) = channel();
    let (ds, dr) = channel::<i32>();
    let (cs, cr) = channel();
    let (ks, kr) = channel::<usize>();
    drop(kr);
    is.send(vec![1, 2]).unwrap();
    assert_eq!(smapFun(&ir, &ds, &cs, &ks), Err(RunError::SendFailed));
    drop(cs);
    drop(ds);
    assert!(cr.recv().is_err());
    assert!(dr.recv().is_err());
}

#[test]
fn smap_of_a_collection_of_unknown_size() {
    let (ds, dr) = channel();
    let (cs, cr) = channel();
    let (ks, kr) = channel();
    assert!(smap_dispatch(vec!["a", "b"], None, &ds, &cs, &ks).is_ok());
    assert_eq!(dr.recv().unwrap(), "a");
    assert_eq!(dr.recv().unwrap(), "b");
    assert_eq!(cr.recv().unwrap(), (false, 1));
    assert_eq!(cr.recv().unwrap(), (false, 1));
    assert_eq!(cr.recv().unwrap(), (true, 0));
    assert_eq!(kr.recv().unwrap(), 2);
}
