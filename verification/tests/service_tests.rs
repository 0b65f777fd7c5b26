use camera_server::service::Error;
use camera_server::service::HealthStatus;
use camera_server::service::ServiceMonitor;
use camera_server::service::ServiceStatus;

#[test]
fn register_and_get_back_a_fresh_record() {
    let mut monitor = ServiceMonitor::new();
    monitor.register_service("camera").unwrap();
    let s = monitor.get_service("camera").unwrap();
    assert_eq!(s.name, "camera");
    assert!(matches!(s.status, ServiceStatus::Unknown));
    assert!(matches!(s.health, HealthStatus::Unknown));
    assert!(s.start_time.is_none());
    assert!(s.uptime.is_none());
    assert!(s.error.is_none());
    assert!(s.extra.is_empty());
}

#[test]
fn duplicate_registration_fails() {
    let mut monitor = ServiceMonitor::new();
    monitor.register_service("camera").unwrap();
    let r = monitor.register_service("camera");
    assert!(matches!(r, Err(Error::Service(_))));
    assert_eq!(monitor.get_all_services().len(), 1);
}

#[test]
fn updating_a_missing_service_fails() {
    let mut monitor = ServiceMonitor::new();
    let r = monitor.update_service_status("gone", ServiceStatus::Running, HealthStatus::Healthy);
    assert!(matches!(r, Err(Error::Service(_))));
    let r = monitor.set_service_error("gone", "boom");
    assert!(matches!(r, Err(Error::Service(_))));
    let r = monitor.set_service_extra("gone", "k", "v");
    assert!(matches!(r, Err(Error::Service(_))));
    let r = monitor.remove_service("gone");
    assert!(matches!(r, Err(Error::Service(_))));
}

#[test]
fn entering_running_sets_start_time_and_zero_uptime() {
    let mut monitor = ServiceMonitor::new();
    monitor.register_service("api").unwrap();
    monitor.update_service_status("api", ServiceStatus::Running, HealthStatus::Healthy).unwrap();
    let s = monitor.get_service("api").unwrap();
    assert!(matches!(s.status, ServiceStatus::Running));
    assert!(matches!(s.health, HealthStatus::Healthy));
    assert!(s.start_time.is_some());
    assert_eq!(s.uptime, Some(0));
}

#[test]
fn leaving_running_clears_start_time_and_uptime() {
    let mut monitor = ServiceMonitor::new();
    monitor.register_service("api").unwrap();
    monitor.update_service_status("api", ServiceStatus::Running, HealthStatus::Healthy).unwrap();
    monitor.update_service_status("api", ServiceStatus::Stopped, HealthStatus::Unknown).unwrap();
    let s = monitor.get_service("api").unwrap();
    assert!(matches!(s.status, ServiceStatus::Stopped));
    assert!(s.start_time.is_none());
    assert!(s.uptime.is_none());
}

#[test]
fn staying_running_keeps_the_start_time() {
    let mut monitor = ServiceMonitor::new();
    monitor.register_service("api").unwrap();
    monitor.update_service_status("api", ServiceStatus::Running, HealthStatus::Healthy).unwrap();
    let started = monitor.get_service("api").unwrap().start_time;
    monitor.update_service_status("api", ServiceStatus::Running, HealthStatus::Degraded).unwrap();
    let s = monitor.get_service("api").unwrap();
    assert_eq!(s.start_time, started);
    assert!(s.uptime.is_some());
    assert!(matches!(s.health, HealthStatus::Degraded));
}

#[test]
fn an_update_clears_a_recorded_error() {
    let mut monitor = ServiceMonitor::new();
    monitor.register_service("api").unwrap();
    monitor.set_service_error("api", "device lost").unwrap();
    {
        let s = monitor.get_service("api").unwrap();
        assert!(matches!(s.status, ServiceStatus::Error));
        assert!(matches!(s.health, HealthStatus::Unhealthy));
        assert_eq!(s.error.as_deref(), Some("device lost"));
    }
    monitor.update_service_status("api", ServiceStatus::Running, HealthStatus::Healthy).unwrap();
    let s = monitor.get_service("api").unwrap();
    assert!(s.error.is_none());
}

#[test]
fn extra_keys_overwrite_in_place_and_append_new() {
    let mut monitor = ServiceMonitor::new();
    monitor.register_service("api").unwrap();
    monitor.set_service_extra("api", "port", "8080").unwrap();
    monitor.set_service_extra("api", "mode", "active").unwrap();
    monitor.set_service_extra("api", "port", "9090").unwrap();
    let s = monitor.get_service("api").unwrap();
    assert_eq!(s.extra.len(), 2);
    assert_eq!(s.extra[0], ("port".to_string(), "9090".to_string()));
    assert_eq!(s.extra[1], ("mode".to_string(), "active".to_string()));
}

#[test]
fn health_counts_cover_every_service_once() {
    let mut monitor = ServiceMonitor::new();
    monitor.register_service("a").unwrap();
    monitor.register_service("b").unwrap();
    monitor.register_service("c").unwrap();
    monitor.register_service("d").unwrap();
    monitor.update_service_status("a", ServiceStatus::Running, HealthStatus::Healthy).unwrap();
    monitor.update_service_status("b", ServiceStatus::Running, HealthStatus::Degraded).unwrap();
    monitor.set_service_error("c", "down").unwrap();
    let (healthy, unhealthy, degraded, unknown) = monitor.check_services_health();
    assert_eq!((healthy, unhealthy, degraded, unknown), (1, 1, 1, 1));
}

#[test]
fn removal_drops_exactly_the_named_service() {
    let mut monitor = ServiceMonitor::new();
    monitor.register_service("a").unwrap();
    monitor.register_service("b").unwrap();
    monitor.remove_service("a").unwrap();
    assert!(monitor.get_service("a").is_none());
    assert!(monitor.get_service("b").is_some());
    assert_eq!(monitor.get_all_services().len(), 1);
}
