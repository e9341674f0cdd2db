use open_rdma_driver::descriptor::{
    generate_big_descriptor, generate_random_descriptors, get_to_card_desc_common,
};
use open_rdma_driver::scheduler::RoundRobinStrategy;

#[test]
fn test_round_robin() {
    let mut round_robin = RoundRobinStrategy::new();
    let qpn1 = 1;
    let qpn2 = 2;
    let qpn1_descs = generate_random_descriptors(1, 2);
    round_robin.push(qpn1, qpn1_descs);
    let qpn2_descs = generate_random_descriptors(2, 3);
    round_robin.push(qpn2, qpn2_descs);
    let result_dqpns = [1, 2, 1, 2, 2];
    for result_dqpn in result_dqpns {
        let desc = round_robin.pop().unwrap();
        let item = get_to_card_desc_common(&desc).dqpn;
        assert_eq!(item, result_dqpn);
    }

    // test merge descriptors
    let qpn1_descs = generate_random_descriptors(1, 2);
    round_robin.push(qpn1, qpn1_descs);
    let qpn2_descs = generate_random_descriptors(2, 3);
    round_robin.push(qpn2, qpn2_descs);
    let desc = round_robin.pop().unwrap();
    let item1 = get_to_card_desc_common(&desc).dqpn;
    assert_eq!(item1, 1);
    // should be {qpn1 : 3 items, qpn2 : 3 items}, next is qpn2
    let qpn1_descs = generate_random_descriptors(1, 2);
    round_robin.push(qpn1, qpn1_descs);
    let result_dqpns = [2, 1, 2, 1, 2, 1];
    for result_dqpn in result_dqpns {
        let desc = round_robin.pop().unwrap();
        let item = get_to_card_desc_common(&desc).dqpn;
        assert_eq!(item, result_dqpn);
    }
}

#[test]
fn empty_scheduler_pops_nothing() {
    let mut rr = RoundRobinStrategy::new();
    assert!(rr.pop().is_none());
    rr.push(5, Vec::new());
    assert!(rr.pop().is_none());
}

#[test]
fn three_queues_are_served_in_turn() {
    let mut rr = RoundRobinStrategy::new();
    rr.push(7, generate_random_descriptors(7, 1));
    rr.push(8, generate_random_descriptors(8, 3));
    rr.push(9, generate_random_descriptors(9, 2));
    let mut served = Vec::new();
    while let Some(d) = rr.pop() {
        served.push(get_to_card_desc_common(&d).dqpn);
    }
    assert_eq!(served, vec![7, 8, 9, 8, 9, 8]);
}

#[test]
fn fifo_within_one_queue_pair() {
    let mut rr = RoundRobinStrategy::new();
    rr.push(4, vec![generate_big_descriptor(10), generate_big_descriptor(20)]);
    rr.push(4, vec![generate_big_descriptor(30)]);
    let lens: Vec<u32> = (0..3)
        .map(|_| get_to_card_desc_common(&rr.pop().unwrap()).total_len)
        .collect();
    assert_eq!(lens, vec![10, 20, 30]);
    assert!(rr.pop().is_none());
}

#[test]
fn sample_descriptors_match() {
    let descs = generate_random_descriptors(3, 4);
    assert_eq!(descs.len(), 4);
    let c = get_to_card_desc_common(&descs[0]);
    assert_eq!(c.dqpn, 3);
    assert_eq!(c.total_len, 512);
    assert_eq!(get_to_card_desc_common(&generate_big_descriptor(9000)).dqpn, 4);
}
