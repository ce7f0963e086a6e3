use minirt::port::{Port, PortClosed, PortState};

#[test]
fn fresh_port_is_created_and_empty() {
    let port: Port<i32> = Port::new();
    assert_eq!(port.state(), PortState::Created);
    assert_eq!(port.pending_count(), 0);
}

#[test]
fn first_send_makes_the_port_active() {
    let mut port: Port<i32> = Port::new();
    assert_eq!(port.send(5), Ok(()));
    assert_eq!(port.state(), PortState::Active);
    assert_eq!(port.pending_count(), 1);
}

#[test]
fn first_receive_makes_the_port_active() {
    let mut port: Port<i32> = Port::new();
    assert_eq!(port.receive(), None);
    assert_eq!(port.state(), PortState::Active);
    assert_eq!(port.pending_count(), 0);
}

#[test]
fn three_sends_come_out_in_order() {
    let mut port: Port<&str> = Port::new();
    port.send("v1").unwrap();
    port.send("v2").unwrap();
    port.send("v3").unwrap();
    assert_eq!(port.pending_count(), 3);
    assert_eq!(port.receive(), Some("v1"));
    assert_eq!(port.receive(), Some("v2"));
    assert_eq!(port.receive(), Some("v3"));
    assert_eq!(port.receive(), None);
    assert_eq!(port.pending_count(), 0);
}

#[test]
fn sends_and_receives_may_alternate() {
    let mut port: Port<u8> = Port::new();
    assert_eq!(port.receive(), None);
    port.send(1).unwrap();
    assert_eq!(port.receive(), Some(1));
    assert_eq!(port.receive(), None);
    port.send(2).unwrap();
    port.send(3).unwrap();
    assert_eq!(port.receive(), Some(2));
    port.send(4).unwrap();
    assert_eq!(port.pending_count(), 2);
    assert_eq!(port.receive(), Some(3));
    assert_eq!(port.receive(), Some(4));
    assert_eq!(port.receive(), None);
}

#[test]
fn receive_takes_exactly_one_value() {
    let mut port: Port<u64> = Port::new();
    for value in 0..10u64 {
        port.send(value).unwrap();
    }
    assert_eq!(port.receive(), Some(0));
    assert_eq!(port.pending_count(), 9);
    assert_eq!(port.receive(), Some(1));
    assert_eq!(port.pending_count(), 8);
}

#[test]
fn equal_values_are_all_delivered() {
    let mut port: Port<u8> = Port::new();
    port.send(7).unwrap();
    port.send(7).unwrap();
    port.send(7).unwrap();
    assert_eq!(port.receive(), Some(7));
    assert_eq!(port.receive(), Some(7));
    assert_eq!(port.receive(), Some(7));
    assert_eq!(port.receive(), None);
}

#[test]
fn send_into_a_destroyed_port_hands_the_value_back() {
    let mut port: Port<String> = Port::new();
    port.destroy();
    assert_eq!(port.state(), PortState::Destroyed);
    let refused = port.send(String::from("late"));
    assert_eq!(refused, Err(PortClosed { value: String::from("late") }));
    let mut other: Port<String> = Port::new();
    match refused {
        Err(closed) => other.send(closed.value).unwrap(),
        Ok(()) => panic!("a destroyed port took a value"),
    }
    assert_eq!(other.receive(), Some(String::from("late")));
}

#[test]
fn destroy_discards_what_was_pending() {
    let mut port: Port<i32> = Port::new();
    port.send(1).unwrap();
    port.send(2).unwrap();
    port.destroy();
    assert_eq!(port.state(), PortState::Destroyed);
    assert_eq!(port.pending_count(), 0);
    assert_eq!(port.receive(), None);
    assert_eq!(port.send(3), Err(PortClosed { value: 3 }));
    assert_eq!(port.pending_count(), 0);
    assert_eq!(port.state(), PortState::Destroyed);
}

#[test]
fn destroy_is_final() {
    let mut port: Port<i32> = Port::new();
    port.destroy();
    port.destroy();
    assert_eq!(port.state(), PortState::Destroyed);
    assert_eq!(port.receive(), None);
    assert_eq!(port.state(), PortState::Destroyed);
}

#[test]
fn a_port_holds_many_values() {
    let mut port: Port<usize> = Port::new();
    for value in 0..100_000usize {
        assert_eq!(port.send(value), Ok(()));
    }
    assert_eq!(port.pending_count(), 100_000);
    for value in 0..100_000usize {
        assert_eq!(port.receive(), Some(value));
    }
    assert_eq!(port.receive(), None);
}

fn only(values: &[i32], owned: impl Fn(i32) -> bool) -> Vec<i32> {
    values.iter().copied().filter(|value| owned(*value)).collect()
}

#[test]
fn two_senders_keep_their_own_order() {
    let first = [10, 11, 12, 13];
    let second = [20, 21, 22];
    let mut schedules = 0;
    // Each pattern of seven bits with three ones is one way for the two
    // senders to take turns: a one is a turn of the second sender.
    for pattern in 0u32..128 {
        if pattern.count_ones() != 3 {
            continue;
        }
        schedules += 1;
        let mut port: Port<i32> = Port::new();
        let mut next_first = first.iter();
        let mut next_second = second.iter();
        for turn in 0..7 {
            let value = if pattern & (1 << turn) == 0 {
                next_first.next()
            } else {
                next_second.next()
            };
            port.send(*value.expect("four turns of one, three of the other")).unwrap();
        }
        let mut received = Vec::new();
        while let Some(value) = port.receive() {
            received.push(value);
        }
        assert_eq!(received.len(), 7);
        assert_eq!(only(&received, |value| value < 20), first.to_vec());
        assert_eq!(only(&received, |value| value >= 20), second.to_vec());
        let mut sorted = received.clone();
        sorted.sort();
        assert_eq!(sorted, vec![10, 11, 12, 13, 20, 21, 22]);
    }
    assert_eq!(schedules, 35);
}

#[test]
fn two_senders_with_receives_in_between() {
    let mut port: Port<(u8, u32)> = Port::new();
    let mut received = Vec::new();
    port.send((0, 1)).unwrap();
    port.send((1, 100)).unwrap();
    received.extend(port.receive());
    port.send((1, 101)).unwrap();
    port.send((0, 2)).unwrap();
    received.extend(port.receive());
    received.extend(port.receive());
    port.send((0, 3)).unwrap();
    port.send((1, 102)).unwrap();
    while let Some(message) = port.receive() {
        received.push(message);
    }
    let from_first: Vec<u32> = received.iter().filter(|m| m.0 == 0).map(|m| m.1).collect();
    let from_second: Vec<u32> = received.iter().filter(|m| m.0 == 1).map(|m| m.1).collect();
    assert_eq!(from_first, vec![1, 2, 3]);
    assert_eq!(from_second, vec![100, 101, 102]);
    assert_eq!(received.len(), 6);
}

#[test]
fn every_sender_is_heard_exactly_once() {
    let senders = 64usize;
    for stride in [1usize, 3, 5, 7, 63] {
        let mut port: Port<usize> = Port::new();
        for turn in 0..senders {
            let identity = (turn * stride) % senders;
            port.send(identity).unwrap();
        }
        let mut heard = vec![0u32; senders];
        let mut count = 0;
        while let Some(identity) = port.receive() {
            heard[identity] += 1;
            count += 1;
        }
        assert_eq!(count, senders);
        assert!(heard.iter().all(|times| *times == 1));
    }
}

#[test]
fn received_then_pending_is_what_was_sent() {
    let mut seed = 0x2545_f491u32;
    for _ in 0..50 {
        let mut port: Port<u32> = Port::new();
        let mut sent = Vec::new();
        let mut received = Vec::new();
        for step in 0..200u32 {
            seed = seed.wrapping_mul(1_664_525).wrapping_add(1_013_904_223);
            if (seed >> 16) % 3 != 0 {
                port.send(step).unwrap();
                sent.push(step);
            } else {
                let waiting = port.pending_count();
                match port.receive() {
                    Some(value) => received.push(value),
                    None => assert_eq!(waiting, 0),
                }
            }
            assert_eq!(received.len() + port.pending_count(), sent.len());
            assert_eq!(received[..], sent[..received.len()]);
        }
        while let Some(value) = port.receive() {
            received.push(value);
        }
        assert_eq!(received, sent);
    }
}
