//! Metrics snapshots, alert thresholds and alert detection.
//!
//! Collection runs outside the library on a timer; this module holds the
//! snapshot data in integer units (rates in permille, scores in permille,
//! times in their named unit) and decides which alerts a snapshot raises.

use vstd::prelude::*;

verus! {

/// Configuration of metrics collection.
#[derive(Debug, Clone, Copy, PartialEq, Eq, Structural)]
pub struct MetricsConfig {
    /// Seconds between collections.
    pub collection_interval_s: u64,
    /// Seconds of history kept.
    pub history_retention_s: u64,
    /// Whether per-component detail is collected.
    pub enable_detailed_metrics: bool,
    /// Thresholds that raise alerts.
    pub alert_thresholds: AlertThresholds,
}

impl Default for MetricsConfig {
    /// Collect every five seconds, keep a day, detail on.
    fn default() -> (c: MetricsConfig)
        ensures
            c.collection_interval_s == 5,
            c.history_retention_s == 86400,
            c.enable_detailed_metrics,
            c.alert_thresholds == spec_default_thresholds(),
    {
        MetricsConfig {
            collection_interval_s: 5,
            history_retention_s: 86400,
            enable_detailed_metrics: true,
            alert_thresholds: AlertThresholds::default(),
        }
    }
}

/// Thresholds above (or below) which a snapshot raises an alert.
#[derive(Debug, Clone, Copy, PartialEq, Eq, Structural)]
pub struct AlertThresholds {
    /// Latency above this many milliseconds alerts.
    pub high_latency_ms: u64,
    /// Packet loss above this many permille alerts.
    pub high_packet_loss_permille: u64,
    /// Processor load above this many percent alerts.
    pub high_cpu_usage_percent: u64,
    /// Memory above this many megabytes alerts.
    pub high_memory_usage_mb: u64,
    /// Audio quality below this many permille alerts.
    pub low_audio_quality_permille: u64,
}

/// The default alert thresholds.
pub open spec fn spec_default_thresholds() -> AlertThresholds {
    AlertThresholds {
        high_latency_ms: 150,
        high_packet_loss_permille: 50,
        high_cpu_usage_percent: 80,
        high_memory_usage_mb: 1024,
        low_audio_quality_permille: 700,
    }
}

impl Default for AlertThresholds {
    /// 150 ms latency, 5% loss, 80% processor, a gigabyte, quality 0.7.
    fn default() -> (t: AlertThresholds)
        ensures
            t == spec_default_thresholds(),
    {
        AlertThresholds {
            high_latency_ms: 150,
            high_packet_loss_permille: 50,
            high_cpu_usage_percent: 80,
            high_memory_usage_mb: 1024,
            low_audio_quality_permille: 700,
        }
    }
}

/// Severity of an alert.
#[derive(Debug, Clone, Copy, PartialEq, Eq, Structural)]
pub enum AlertSeverity {
    /// Informational.
    Info,
    /// Needs attention.
    Warning,
    /// Something failed.
    Error,
    /// Service at risk.
    Critical,
}

/// One raised alert.
#[derive(Debug, Clone)]
pub struct AlertInfo {
    /// Stable identifier of the alert kind.
    pub id: String,
    /// How serious it is.
    pub severity: AlertSeverity,
    /// Human-readable description.
    pub message: String,
    /// Seconds since the epoch when raised.
    pub timestamp: u64,
    /// Component the alert concerns.
    pub component: String,
}

/// Audio-plane figures of one snapshot.
#[derive(Debug, Clone, Copy, PartialEq, Eq, Structural)]
pub struct AudioSystemMetrics {
    /// Channels with activity.
    pub active_channels: usize,
    /// Users with activity.
    pub active_users: usize,
    /// Streams flowing.
    pub total_audio_streams: usize,
    /// Average delivery latency in milliseconds.
    pub average_latency_ms: u64,
    /// Packet loss in permille.
    pub packet_loss_permille: u64,
    /// Audio quality score in permille.
    pub audio_quality_permille: u64,
}

/// Processing figures of one snapshot.
#[derive(Debug, Clone, Copy, PartialEq, Eq, Structural)]
pub struct PerformanceMetrics {
    /// Processor load in percent.
    pub cpu_usage_percent: u64,
    /// Resident memory in megabytes.
    pub memory_usage_mb: u64,
    /// Worker pool utilisation in percent.
    pub thread_pool_utilization_percent: u64,
    /// Jobs waiting for a worker.
    pub processing_queue_size: usize,
    /// Smoothed processing time in microseconds.
    pub average_processing_time_us: u64,
    /// Operations in flight.
    pub concurrent_operations: usize,
}

/// Network figures of one snapshot.
#[derive(Debug, Clone, Copy, PartialEq, Eq, Structural)]
pub struct NetworkMetrics {
    /// Ingress rate in packets per second.
    pub packets_received_per_second: u64,
    /// Egress rate in packets per second.
    pub packets_sent_per_second: u64,
    /// Ingress rate in bytes per second.
    pub bytes_received_per_second: u64,
    /// Egress rate in bytes per second.
    pub bytes_sent_per_second: u64,
    /// Open connections.
    pub connection_count: usize,
    /// Connections that failed.
    pub failed_connections: u64,
    /// Network jitter in milliseconds.
    pub network_jitter_ms: u64,
}

/// Health summary of one snapshot.
#[derive(Debug, Clone, Copy, PartialEq, Eq, Structural)]
pub struct SystemHealthMetrics {
    /// Overall health score in permille.
    pub overall_health_permille: u64,
    /// Alerts currently active.
    pub active_alert_count: usize,
    /// Seconds since the server started.
    pub uptime_seconds: u64,
    /// Failure rate in percent.
    pub error_rate_percent: u64,
    /// Availability in percent.
    pub service_availability_percent: u64,
}

/// One collected snapshot.
#[derive(Debug, Clone, Copy, PartialEq, Eq, Structural)]
pub struct RealTimeMetrics {
    /// Seconds since the epoch when collected.
    pub timestamp: u64,
    /// Audio-plane figures.
    pub audio_metrics: AudioSystemMetrics,
    /// Processing figures.
    pub performance_metrics: PerformanceMetrics,
    /// Network figures.
    pub network_metrics: NetworkMetrics,
    /// Health summary.
    pub system_health: SystemHealthMetrics,
}

/// A snapshot with every figure zero and full health.
pub open spec fn spec_empty_metrics() -> RealTimeMetrics {
    RealTimeMetrics {
        timestamp: 0,
        audio_metrics: AudioSystemMetrics {
            active_channels: 0,
            active_users: 0,
            total_audio_streams: 0,
            average_latency_ms: 0,
            packet_loss_permille: 0,
            audio_quality_permille: 1000,
        },
        performance_metrics: PerformanceMetrics {
            cpu_usage_percent: 0,
            memory_usage_mb: 0,
            thread_pool_utilization_percent: 0,
            processing_queue_size: 0,
            average_processing_time_us: 0,
            concurrent_operations: 0,
        },
        network_metrics: NetworkMetrics {
            packets_received_per_second: 0,
            packets_sent_per_second: 0,
            bytes_received_per_second: 0,
            bytes_sent_per_second: 0,
            connection_count: 0,
            failed_connections: 0,
            network_jitter_ms: 0,
        },
        system_health: SystemHealthMetrics {
            overall_health_permille: 1000,
            active_alert_count: 0,
            uptime_seconds: 0,
            error_rate_percent: 0,
            service_availability_percent: 100,
        },
    }
}

/// Builds the empty snapshot.
pub fn create_empty_metrics() -> (m: RealTimeMetrics)
    ensures
        m == spec_empty_metrics(),
{
    RealTimeMetrics {
        timestamp: 0,
        audio_metrics: AudioSystemMetrics {
            active_channels: 0,
            active_users: 0,
            total_audio_streams: 0,
            average_latency_ms: 0,
            packet_loss_permille: 0,
            audio_quality_permille: 1000,
        },
        performance_metrics: PerformanceMetrics {
            cpu_usage_percent: 0,
            memory_usage_mb: 0,
            thread_pool_utilization_percent: 0,
            processing_queue_size: 0,
            average_processing_time_us: 0,
            concurrent_operations: 0,
        },
        network_metrics: NetworkMetrics {
            packets_received_per_second: 0,
            packets_sent_per_second: 0,
            bytes_received_per_second: 0,
            bytes_sent_per_second: 0,
            connection_count: 0,
            failed_connections: 0,
            network_jitter_ms: 0,
        },
        system_health: SystemHealthMetrics {
            overall_health_permille: 1000,
            active_alert_count: 0,
            uptime_seconds: 0,
            error_rate_percent: 0,
            service_availability_percent: 100,
        },
    }
}

/// Which alerts a snapshot raises, against the thresholds.
pub open spec fn spec_alerts_raised(m: RealTimeMetrics, t: AlertThresholds) -> (bool, bool, bool) {
    (
        m.audio_metrics.average_latency_ms > t.high_latency_ms,
        m.audio_metrics.packet_loss_permille > t.high_packet_loss_permille,
        m.performance_metrics.cpu_usage_percent > t.high_cpu_usage_percent,
    )
}

/// Detects alerts in a snapshot: a warning on high latency, an error on
/// high packet loss, a warning on high processor load, in that order.
pub fn detect_alerts(m: &RealTimeMetrics, t: &AlertThresholds) -> (alerts: Vec<AlertInfo>)
    ensures
        ({
            let (lat, loss, cpu) = spec_alerts_raised(*m, *t);
            &&& alerts@.len() == (if lat {
                1int
            } else {
                0
            }) + (if loss {
                1int
            } else {
                0
            }) + (if cpu {
                1int
            } else {
                0
            })
            &&& (lat ==> alerts@[0].severity == AlertSeverity::Warning && alerts@[0].id@
                == "latency"@ && alerts@[0].component@ == "audio"@ && alerts@[0].timestamp
                == m.timestamp)
            &&& (!lat && loss ==> alerts@[0].severity == AlertSeverity::Error && alerts@[0].id@
                == "packet-loss"@ && alerts@[0].component@ == "network"@)
            &&& (lat && loss ==> alerts@[1].severity == AlertSeverity::Error && alerts@[1].id@
                == "packet-loss"@ && alerts@[1].component@ == "network"@)
            &&& (cpu ==> alerts@[alerts@.len() - 1].severity == AlertSeverity::Warning
                && alerts@[alerts@.len() - 1].id@ == "cpu"@ && alerts@[alerts@.len() - 1].component@
                == "performance"@)
        }),
{
    let mut alerts: Vec<AlertInfo> = Vec::new();
    if m.audio_metrics.average_latency_ms > t.high_latency_ms {
        alerts.push(
            AlertInfo {
                id: "latency".to_owned(),
                severity: AlertSeverity::Warning,
                message: "high audio latency".to_owned(),
                timestamp: m.timestamp,
                component: "audio".to_owned(),
            },
        );
    }
    if m.audio_metrics.packet_loss_permille > t.high_packet_loss_permille {
        alerts.push(
            AlertInfo {
                id: "packet-loss".to_owned(),
                severity: AlertSeverity::Error,
                message: "high packet loss".to_owned(),
                timestamp: m.timestamp,
                component: "network".to_owned(),
            },
        );
    }
    if m.performance_metrics.cpu_usage_percent > t.high_cpu_usage_percent {
        alerts.push(
            AlertInfo {
                id: "cpu".to_owned(),
                severity: AlertSeverity::Warning,
                message: "high processor load".to_owned(),
                timestamp: m.timestamp,
                component: "performance".to_owned(),
            },
        );
    }
    alerts
}

/// Textual health of each component of a snapshot.
#[derive(Debug, Clone)]
pub struct ComponentStatus {
    /// Health of the audio plane.
    pub audio_system: String,
    /// Health of processing.
    pub performance: String,
    /// Health of the network.
    pub network: String,
}

/// Simplified mixer figures of a snapshot.
#[derive(Debug, Clone, Copy, PartialEq, Eq, Structural)]
pub struct MixerStats {
    /// Mixers with activity.
    pub active_mixers: usize,
    /// Samples accumulated across calls.
    pub total_samples_processed: u64,
    /// Compression ratio in permille.
    pub compression_ratio_milli: u32,
    /// Largest output magnitude seen.
    pub peak_level: u32,
}

/// Simplified buffer figures of a snapshot.
#[derive(Debug, Clone, Copy, PartialEq, Eq, Structural)]
pub struct BufferStats {
    /// Buffers tracked.
    pub total_buffers: usize,
    /// Average fill in permille of capacity.
    pub average_fill_permille: u64,
    /// Reads that found the buffer empty.
    pub underruns: u64,
    /// Writes that evicted a resident packet.
    pub overruns: u64,
}

/// Simplified routing figures of a snapshot.
#[derive(Debug, Clone, Copy, PartialEq, Eq, Structural)]
pub struct RoutingMetrics {
    /// Routes in use.
    pub active_routes: usize,
    /// Routing decisions per second.
    pub routing_decisions_per_second: u64,
    /// Adaptive mode changes taken.
    pub adaptive_adjustments: u64,
    /// Average route quality in permille.
    pub route_quality_permille: u64,
}

/// Configuration of the metrics endpoints.
#[derive(Debug, Clone, Copy, PartialEq, Eq, Structural)]
pub struct MetricsApiConfig {
    /// Whether per-component detail is served.
    pub enable_detailed_metrics: bool,
    /// Whether alerts are served.
    pub enable_alerts: bool,
    /// Most history points served in one response.
    pub max_history_points: usize,
}

impl Default for MetricsApiConfig {
    /// Detail and alerts on; a thousand history points.
    fn default() -> (c: MetricsApiConfig)
        ensures
            c.enable_detailed_metrics,
            c.enable_alerts,
            c.max_history_points == 1000,
    {
        MetricsApiConfig {
            enable_detailed_metrics: true,
            enable_alerts: true,
            max_history_points: 1000,
        }
    }
}

/// Parameters of a history request.
#[derive(Debug, Clone)]
pub struct HistoryQuery {
    /// Points to return.
    pub limit: Option<usize>,
    /// Component to filter by.
    pub component: Option<String>,
    /// Period covered, in seconds.
    pub period: Option<u64>,
}

/// Parameters of an alerts request.
#[derive(Debug, Clone)]
pub struct AlertsQuery {
    /// Least severity by name.
    pub severity: Option<String>,
    /// Component to filter by.
    pub component: Option<String>,
    /// Most alerts to return.
    pub limit: Option<usize>,
}

/// Response carrying alerts.
#[derive(Debug, Clone)]
pub struct AlertsResponse {
    /// Whether the request succeeded.
    pub success: bool,
    /// The alerts.
    pub data: Vec<AlertInfo>,
    /// How many alerts exist in total.
    pub total_alerts: usize,
}

/// Error response of the metrics endpoints.
#[derive(Debug, Clone)]
pub struct ErrorResponse {
    /// Always false.
    pub success: bool,
    /// Human-readable description.
    pub error: String,
    /// Stable error code.
    pub code: String,
}

} // verus!
