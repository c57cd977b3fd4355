//! Control-surface data: request and response shapes of the management
//! interface, and the pagination arithmetic behind its listings.
//!
//! The HTTP plumbing lives outside the library; these are the values it
//! exchanges, with the page computation verified here.

use vstd::prelude::*;

verus! {

/// Feature switches and limits of the management interface.
#[derive(Debug, Clone, Copy, PartialEq, Eq, Structural)]
pub struct AdvancedApiConfig {
    /// Whether administrative endpoints are served.
    pub enable_admin_endpoints: bool,
    /// Whether audio control endpoints are served.
    pub enable_audio_control: bool,
    /// Whether statistics endpoints are served.
    pub enable_statistics: bool,
    /// Largest page size a listing accepts.
    pub max_pagination_limit: usize,
}

impl Default for AdvancedApiConfig {
    /// Everything on; pages capped at one hundred.
    fn default() -> (c: AdvancedApiConfig)
        ensures
            c.enable_admin_endpoints,
            c.enable_audio_control,
            c.enable_statistics,
            c.max_pagination_limit == 100,
    {
        AdvancedApiConfig {
            enable_admin_endpoints: true,
            enable_audio_control: true,
            enable_statistics: true,
            max_pagination_limit: 100,
        }
    }
}

/// Pagination parameters of a listing request.
#[derive(Debug, Clone)]
pub struct PaginationQuery {
    /// Requested page, starting at one.
    pub page: Option<usize>,
    /// Requested page size.
    pub limit: Option<usize>,
    /// Field to sort by.
    pub sort_by: Option<String>,
    /// Sort order, ascending or descending.
    pub order: Option<String>,
}

/// Filters of a channel listing request.
#[derive(Debug, Clone)]
pub struct ChannelFilterQuery {
    /// Filter by name.
    pub name: Option<String>,
    /// Filter by channel type.
    pub channel_type: Option<String>,
    /// Least member count.
    pub min_users: Option<usize>,
    /// Greatest member count.
    pub max_users: Option<usize>,
    /// Whether private channels are included.
    pub include_private: Option<bool>,
}

/// Requested audio configuration changes.
#[derive(Debug, Clone)]
pub struct AudioConfigRequest {
    /// New sample rate in hertz.
    pub sample_rate: Option<u32>,
    /// New channel count.
    pub channels: Option<u8>,
    /// New bit depth.
    pub bit_depth: Option<u8>,
    /// New buffer size in packets.
    pub buffer_size: Option<usize>,
    /// New latency target in milliseconds.
    pub latency_target_ms: Option<u64>,
    /// New quality mode by name.
    pub quality_mode: Option<String>,
}

/// Requested routing configuration changes of a channel.
#[derive(Debug, Clone)]
pub struct ChannelRoutingRequest {
    /// New member cap.
    pub max_users: Option<usize>,
    /// New quality mode by name.
    pub quality_mode: Option<String>,
    /// New latency target in milliseconds.
    pub latency_target_ms: Option<u64>,
    /// Whether echo cancellation is requested.
    pub enable_echo_cancellation: Option<bool>,
    /// Whether noise suppression is requested.
    pub enable_noise_suppression: Option<bool>,
    /// New bitrate hint in kilobits per second.
    pub bitrate_kbps: Option<u32>,
}

/// Requested user profile changes.
#[derive(Debug, Clone)]
pub struct UserUpdateRequest {
    /// New login name.
    pub username: Option<String>,
    /// New display name.
    pub display_name: Option<String>,
    /// Whether the user is active.
    pub is_active: Option<bool>,
}

/// Requested channel changes.
#[derive(Debug, Clone)]
pub struct ChannelUpdateRequest {
    /// New name.
    pub name: Option<String>,
    /// New description.
    pub description: Option<String>,
    /// New member cap.
    pub max_users: Option<usize>,
    /// Whether the channel is private.
    pub is_private: Option<bool>,
}

/// The audio configuration as reported to clients.
#[derive(Debug, Clone, Copy, PartialEq, Eq, Structural)]
pub struct AudioConfigResponse {
    /// Sample rate in hertz.
    pub sample_rate: u32,
    /// Channel count.
    pub channels: u16,
    /// Buffer size in packets.
    pub buffer_size: usize,
    /// Largest accepted datagram.
    pub max_packet_size: usize,
}

/// One page of a listing.
#[derive(Debug, Clone)]
pub struct PaginatedResponse<T> {
    /// The page's items.
    pub data: Vec<T>,
    /// Where the page sits in the listing.
    pub pagination: PaginationInfo,
}

/// Where one page sits in a listing.
#[derive(Debug, Clone, Copy, PartialEq, Eq, Structural)]
pub struct PaginationInfo {
    /// The page served, starting at one.
    pub current_page: usize,
    /// Pages in the whole listing.
    pub total_pages: usize,
    /// Items in the whole listing.
    pub total_items: usize,
    /// Items per page.
    pub items_per_page: usize,
    /// Whether a later page exists.
    pub has_next: bool,
    /// Whether an earlier page exists.
    pub has_previous: bool,
}

/// The page size a request gets: the requested size, defaulting to
/// twenty, never more than the cap.
pub open spec fn spec_effective_limit(limit: Option<usize>, cap: nat) -> nat {
    let want: nat = match limit {
        Some(l) => l as nat,
        None => 20,
    };
    if want > cap {
        cap
    } else {
        want
    }
}

/// The page a request gets: the requested page, at least one.
pub open spec fn spec_effective_page(page: Option<usize>) -> nat {
    match page {
        Some(p) => if p < 1 {
            1
        } else {
            p as nat
        },
        None => 1,
    }
}

/// Computes the pagination of a listing: the effective page and page
/// size, the page count rounded up, and whether neighbours exist.
pub fn paginate(
    page: Option<usize>,
    limit: Option<usize>,
    total_items: usize,
    max_limit: usize,
) -> (info: PaginationInfo)
    requires
        max_limit >= 1,
    ensures
        info.current_page == spec_effective_page(page),
        info.items_per_page == spec_effective_limit(limit, max_limit as nat),
        info.items_per_page >= 1 ==> info.total_pages == (total_items + info.items_per_page - 1)
            / info.items_per_page as int,
        info.items_per_page == 0 ==> info.total_pages == 0,
        info.total_items == total_items,
        info.has_next == (info.current_page < info.total_pages),
        info.has_previous == (info.current_page > 1),
{
    let current_page: usize = match page {
        Some(p) => if p < 1 {
            1
        } else {
            p
        },
        None => 1,
    };
    let want: usize = match limit {
        Some(l) => l,
        None => 20,
    };
    let items_per_page: usize = if want > max_limit {
        max_limit
    } else {
        want
    };
    let total_pages: usize = if items_per_page == 0 {
        0
    } else if total_items == 0 {
        0
    } else {
        1 + (total_items - 1) / items_per_page
    };
    proof {
        if items_per_page >= 1 && total_items > 0 {
            assert(1 + (total_items - 1) / (items_per_page as int) == (total_items
                + items_per_page - 1) / (items_per_page as int)) by (nonlinear_arith)
                requires
                    items_per_page >= 1,
                    total_items >= 1,
            ;
        }
        if items_per_page >= 1 && total_items == 0 {
            assert((items_per_page - 1) / (items_per_page as int) == 0) by (nonlinear_arith)
                requires
                    items_per_page >= 1,
            ;
        }
    }
    PaginationInfo {
        current_page,
        total_pages,
        total_items,
        items_per_page,
        has_next: current_page < total_pages,
        has_previous: current_page > 1,
    }
}

} // verus!
