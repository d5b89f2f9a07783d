use openfang_channels::registry::AdapterRegistry;
use openfang_channels::types::ChannelType;

fn slack() -> ChannelType {
    ChannelType::Custom("slack".to_string())
}

#[test]
fn registered_adapters_are_found() {
    let mut registry = AdapterRegistry::new();
    assert!(registry.is_empty());
    assert_eq!(registry.len(), 0);
    registry.register(ChannelType::Discord, "a".to_string(), 1);
    registry.register(slack(), "a".to_string(), 2);
    registry.register(ChannelType::Discord, "b".to_string(), 3);
    assert_eq!(registry.get(ChannelType::Discord, "a"), Some(1));
    assert_eq!(registry.get(slack(), "a"), Some(2));
    assert_eq!(registry.get(slack(), "b"), None);
    assert_eq!(registry.len(), 3);
    assert!(!registry.is_empty());
}

#[test]
fn a_later_adapter_takes_the_place_of_an_earlier_one() {
    let mut registry = AdapterRegistry::default();
    registry.register(ChannelType::Discord, "a".to_string(), 1);
    registry.register(ChannelType::Discord, "a".to_string(), 2);
    assert_eq!(registry.get(ChannelType::Discord, "a"), Some(2));
    assert_eq!(registry.len(), 1);
}

#[test]
fn removed_adapters_are_not_found() {
    let mut registry = AdapterRegistry::new();
    registry.register(ChannelType::Discord, "a".to_string(), 1);
    registry.register(ChannelType::Discord, "b".to_string(), 2);
    assert!(registry.remove(ChannelType::Discord, "a"));
    assert!(!registry.remove(ChannelType::Discord, "a"));
    assert!(!registry.remove(slack(), "b"));
    assert_eq!(registry.get(ChannelType::Discord, "a"), None);
    assert_eq!(registry.get(ChannelType::Discord, "b"), Some(2));
    assert_eq!(registry.len(), 1);
}

#[test]
fn adapters_of_a_channel() {
    let mut registry = AdapterRegistry::new();
    registry.register(ChannelType::Discord, "a".to_string(), 5);
    registry.register(ChannelType::Discord, "b".to_string(), 5);
    registry.register(slack(), "a".to_string(), 6);
    registry.register(ChannelType::Custom("other".to_string()), "a".to_string(), 7);
    assert_eq!(registry.get_by_channel(ChannelType::Discord), vec![5, 5]);
    assert_eq!(registry.get_by_channel(slack()), vec![6]);
    assert!(registry.get_by_channel(ChannelType::Custom("none".to_string())).is_empty());
}
