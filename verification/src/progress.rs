//! What to do about an order, and what to make of the market's answer.

use vstd::prelude::*;

use crate::model::{OrderDetails, OrderDetailsView, OrderType, SubType, SubTypeView};
use crate::text::{followed_by, joined, view_of};

verus! {

/// The file that failures of orders are logged to.
pub const LOG_FILE: &'static str = "progress_order.log";

/// How serious a message is.
#[derive(Debug, Clone, Copy, PartialEq, Eq, Structural)]
pub enum LogLevel {
    /// Of use only when following the program step by step.
    Trace,
    /// Of use only when looking for a fault.
    Debug,
    /// Worth knowing.
    Info,
    /// Not as it should be.
    Warning,
    /// A failure.
    Error,
    /// A failure that stops the work.
    Critical,
}

/// A failure that the market reports, by its kind.
#[derive(Debug, Clone, Copy, PartialEq, Eq, Structural)]
pub enum ApiError {
    /// The user has as many auctions as allowed.
    AuctionLimitExceeded,
    /// The user has as many orders as allowed.
    OrderLimitExceeded,
    /// The user has an order for the same item at the same price.
    OrderLimitExceededSamePrice,
    /// The market does not have what was asked for.
    NotFound,
    /// The request did not get through.
    RequestError,
    /// Any other failure.
    Other,
}

/// A message for the log.
#[derive(Debug, PartialEq, Eq)]
pub struct LogLine {
    /// How serious the message is.
    pub level: LogLevel,
    /// The part of the program that has something to say.
    pub component: String,
    /// What it has to say.
    pub message: String,
}

/// What a [`LogLine`] says.
pub struct LogLineView {
    pub level: LogLevel,
    pub component: Seq<char>,
    pub message: Seq<char>,
}

impl View for LogLine {
    type V = LogLineView;

    open spec fn view(&self) -> LogLineView {
        LogLineView {
            level: self.level,
            component: self.component@,
            message: self.message@,
        }
    }
}

/// What follows from a failure that the market reports.
#[derive(Debug, PartialEq, Eq)]
pub struct Failure {
    /// What to log once the user's orders are fetched again, where what is known of
    /// them is out of date.
    pub refresh: Option<LogLine>,
    /// The failure to report.
    pub report: LogLine,
}

/// What a [`Failure`] says.
pub struct FailureView {
    pub refresh: Option<LogLineView>,
    pub report: LogLineView,
}

impl View for Failure {
    type V = FailureView;

    open spec fn view(&self) -> FailureView {
        FailureView { refresh: view_of(self.refresh), report: self.report@ }
    }
}

/// Whether `error` shows that what is known of the user's orders is out of date.
pub open spec fn shows_stale_orders(error: ApiError) -> bool {
    error == ApiError::OrderLimitExceededSamePrice || error == ApiError::NotFound || error
        == ApiError::OrderLimitExceeded
}

/// What follows from `error` during `action` of `component`. Limits of the market
/// and missing orders are warnings; everything else is an error.
pub open spec fn failure_of(
    component: Seq<char>,
    action: Seq<char>,
    message: Seq<char>,
    error: ApiError,
) -> FailureView {
    FailureView {
        refresh: if shows_stale_orders(error) {
            Some(
                LogLineView {
                    level: LogLevel::Trace,
                    component: component + ":"@ + action,
                    message: "Refreshed cached orders due to order limit exceeded"@,
                },
            )
        } else {
            None
        },
        report: LogLineView {
            level: if error == ApiError::AuctionLimitExceeded || shows_stale_orders(error) {
                LogLevel::Warning
            } else {
                LogLevel::Error
            },
            component: component + ":"@ + action,
            message,
        },
    }
}

/// Computes [`failure_of`].
pub fn handler_wfm_error(
    component: &str,
    action: &str,
    message: String,
    e: ApiError,
) -> (r: Failure)
    ensures
        r@ == failure_of(component@, action@, message@, e),
{
    let (stale, log_level): (bool, LogLevel) = match e {
        ApiError::AuctionLimitExceeded => (false, LogLevel::Warning),
        ApiError::OrderLimitExceededSamePrice | ApiError::NotFound
        | ApiError::OrderLimitExceeded => (true, LogLevel::Warning),
        _ => (false, LogLevel::Error),
    };
    let refresh: Option<LogLine> = if stale {
        Some(
            LogLine {
                level: LogLevel::Trace,
                component: joined(component, ":", action),
                message: "Refreshed cached orders due to order limit exceeded".to_owned(),
            },
        )
    } else {
        None
    };
    Failure {
        refresh,
        report: LogLine {
            level: log_level,
            component: joined(component, ":", action),
            message,
        },
    }
}

/// What to do about an order.
#[derive(Debug, PartialEq, Eq)]
pub enum OrderAction {
    /// Ask the market for a new order.
    Create {
        item_id: String,
        order_type: OrderType,
        platinum: u32,
        quantity: u32,
        visible: bool,
        per_trade: Option<u32>,
        sub_type: Option<SubType>,
        /// What to store with the order.
        properties: OrderDetails,
    },
    /// Have the market change an order.
    Update {
        order_id: String,
        platinum: u32,
        quantity: u32,
        per_trade: Option<u32>,
        /// What to store with the order.
        properties: OrderDetails,
    },
    /// Have the market take back an order.
    Delete { order_id: String },
    /// Do nothing, and say why.
    Skip { reason: LogLine },
}

/// What an [`OrderAction`] says.
pub enum OrderActionView {
    Create {
        item_id: Seq<char>,
        order_type: OrderType,
        platinum: u32,
        quantity: u32,
        visible: bool,
        per_trade: Option<u32>,
        sub_type: Option<SubTypeView>,
        properties: OrderDetailsView,
    },
    Update {
        order_id: Seq<char>,
        platinum: u32,
        quantity: u32,
        per_trade: Option<u32>,
        properties: OrderDetailsView,
    },
    Delete { order_id: Seq<char> },
    Skip { reason: LogLineView },
}

impl View for OrderAction {
    type V = OrderActionView;

    open spec fn view(&self) -> OrderActionView {
        match *self {
            OrderAction::Create {
                item_id,
                order_type,
                platinum,
                quantity,
                visible,
                per_trade,
                sub_type,
                properties,
            } => OrderActionView::Create {
                item_id: item_id@,
                order_type,
                platinum,
                quantity,
                visible,
                per_trade,
                sub_type: view_of(sub_type),
                properties: properties@,
            },
            OrderAction::Update { order_id, platinum, quantity, per_trade, properties } =>
                OrderActionView::Update {
                order_id: order_id@,
                platinum,
                quantity,
                per_trade,
                properties: properties@,
            },
            OrderAction::Delete { order_id } => OrderActionView::Delete { order_id: order_id@ },
            OrderAction::Skip { reason } => OrderActionView::Skip { reason: reason@ },
        }
    }
}

/// What to do about the order of `details`: create it where that is asked for and
/// the market takes another order, update it, take it back where it is there and to
/// be deleted, or nothing. The details themselves are stored with the order.
pub open spec fn action_for(
    component: Seq<char>,
    details: OrderDetailsView,
    order_type: OrderType,
    post_price: u32,
    per_trade: Option<u32>,
    can_create_order: bool,
) -> OrderActionView {
    let create = details.operation.contains("Create"@);
    let update = details.operation.contains("Update"@);
    let delete = details.operation.contains("Delete"@);
    if create && !delete && can_create_order {
        OrderActionView::Create {
            item_id: details.item_id,
            order_type,
            platinum: post_price,
            quantity: details.quantity,
            visible: true,
            per_trade,
            sub_type: details.sub_type,
            properties: details,
        }
    } else if update && !delete {
        OrderActionView::Update {
            order_id: details.order_id,
            platinum: post_price,
            quantity: details.quantity,
            per_trade,
            properties: details,
        }
    } else if update && delete {
        OrderActionView::Delete { order_id: details.order_id }
    } else {
        OrderActionView::Skip {
            reason: LogLineView {
                level: LogLevel::Warning,
                component: component + "Skip"@,
                message: "Item "@ + details.item_name + if !can_create_order {
                    " has reached the order limit. Skipping."@
                } else {
                    " is not optimal for buying. Skipping."@
                },
            },
        }
    }
}

/// Computes [`action_for`].
pub fn progress_order(
    component: &str,
    order_info: &OrderDetails,
    order_type: OrderType,
    post_price: u32,
    per_trade: Option<u32>,
    can_create_order: bool,
) -> (r: OrderAction)
    ensures
        r@ == action_for(
            component@,
            order_info@,
            order_type,
            post_price,
            per_trade,
            can_create_order,
        ),
{
    if order_info.has_operation("Create") && !order_info.has_operation("Delete")
        && can_create_order {
        OrderAction::Create {
            item_id: order_info.item_id.clone(),
            order_type,
            platinum: post_price,
            quantity: order_info.quantity,
            visible: true,
            per_trade,
            sub_type: order_info.sub_type.clone(),
            properties: order_info.clone(),
        }
    } else if order_info.has_operation("Update") && !order_info.has_operation("Delete") {
        OrderAction::Update {
            order_id: order_info.order_id.clone(),
            platinum: post_price,
            quantity: order_info.quantity,
            per_trade,
            properties: order_info.clone(),
        }
    } else if order_info.has_operation("Update") && order_info.has_operation("Delete") {
        OrderAction::Delete { order_id: order_info.order_id.clone() }
    } else if !can_create_order {
        OrderAction::Skip {
            reason: LogLine {
                level: LogLevel::Warning,
                component: followed_by(component, "Skip"),
                message: joined(
                    "Item ",
                    order_info.item_name.as_str(),
                    " has reached the order limit. Skipping.",
                ),
            },
        }
    } else {
        OrderAction::Skip {
            reason: LogLine {
                level: LogLevel::Warning,
                component: followed_by(component, "Skip"),
                message: joined(
                    "Item ",
                    order_info.item_name.as_str(),
                    " is not optimal for buying. Skipping.",
                ),
            },
        }
    }
}

/// An order that is to be deleted is never created or updated.
pub proof fn deleted_orders_are_not_sent(
    component: Seq<char>,
    details: OrderDetailsView,
    order_type: OrderType,
    post_price: u32,
    per_trade: Option<u32>,
    can_create_order: bool,
)
    requires
        details.operation.contains("Delete"@),
    ensures
        ({
            let action = action_for(
                component,
                details,
                order_type,
                post_price,
                per_trade,
                can_create_order,
            );
            action is Delete || action is Skip
        }),
{
}

/// No order is created beyond the limit of the market.
pub proof fn nothing_is_created_at_the_limit(
    component: Seq<char>,
    details: OrderDetailsView,
    order_type: OrderType,
    post_price: u32,
    per_trade: Option<u32>,
)
    ensures
        !(action_for(component, details, order_type, post_price, per_trade, false) is Create),
{
}

/// Only an order that the market has is updated or taken back.
pub proof fn only_existing_orders_are_changed(
    component: Seq<char>,
    details: OrderDetailsView,
    order_type: OrderType,
    post_price: u32,
    per_trade: Option<u32>,
    can_create_order: bool,
)
    requires
        !details.operation.contains("Update"@),
    ensures
        ({
            let action = action_for(
                component,
                details,
                order_type,
                post_price,
                per_trade,
                can_create_order,
            );
            action is Create || action is Skip
        }),
{
}

/// What follows from an order that the market dealt with.
#[derive(Debug, PartialEq, Eq)]
pub struct Success {
    /// What to log.
    pub log: LogLine,
    /// Whether what is shown of the user's orders must be brought up to date.
    pub refresh_shown_orders: bool,
}

/// What a [`Success`] says.
pub struct SuccessView {
    pub log: LogLineView,
    pub refresh_shown_orders: bool,
}

impl View for Success {
    type V = SuccessView;

    open spec fn view(&self) -> SuccessView {
        SuccessView { log: self.log@, refresh_shown_orders: self.refresh_shown_orders }
    }
}

/// What follows from an order that was dealt with: the log says that `done` happened
/// to the order `order_id` of `item_name`.
pub open spec fn success_of(
    component: Seq<char>,
    done: Seq<char>,
    message: Seq<char>,
    item_name: Seq<char>,
    order_id: Seq<char>,
    refresh_shown_orders: bool,
) -> SuccessView {
    SuccessView {
        log: LogLineView {
            level: LogLevel::Info,
            component: component + done,
            message: message + item_name + ": "@ + order_id,
        },
        refresh_shown_orders,
    }
}

/// Computes [`success_of`].
fn success(
    component: &str,
    done: &str,
    message: &str,
    item_name: &str,
    order_id: &str,
    refresh_shown_orders: bool,
) -> (r: Success)
    ensures
        r@ == success_of(
            component@,
            done@,
            message@,
            item_name@,
            order_id@,
            refresh_shown_orders,
        ),
{
    let text: String = joined(message, item_name, ": ");
    Success {
        log: LogLine {
            level: LogLevel::Info,
            component: followed_by(component, done),
            message: followed_by(text.as_str(), order_id),
        },
        refresh_shown_orders,
    }
}

/// What follows from the market's answer to a new order, which is the identifier of
/// the order: what is shown is out of date.
pub fn order_created(
    component: &str,
    order_info: &OrderDetails,
    reply: Result<String, ApiError>,
) -> (r: Result<Success, Failure>)
    ensures
        reply matches Ok(order_id) ==> (r matches Ok(done) && done@ == success_of(
            component@,
            "CreateSuccess"@,
            "Created order for item "@,
            order_info@.item_name,
            order_id@,
            true,
        )),
        reply matches Err(e) ==> (r matches Err(failure) && failure@ == failure_of(
            component@,
            "Create"@,
            "Failed to create order for item "@ + order_info@.item_name,
            e,
        )),
{
    match reply {
        Ok(order_id) => Ok(
            success(
                component,
                "CreateSuccess",
                "Created order for item ",
                order_info.item_name.as_str(),
                order_id.as_str(),
                true,
            ),
        ),
        Err(e) => Err(
            handler_wfm_error(
                component,
                "Create",
                followed_by("Failed to create order for item ", order_info.item_name.as_str()),
                e,
            ),
        ),
    }
}

/// What follows from the market's answer to a changed order, which is what the
/// market now knows of it: what is shown is out of date where that is something new.
pub fn order_updated(
    component: &str,
    order_info: &OrderDetails,
    reply: Result<String, ApiError>,
) -> (r: Result<Success, Failure>)
    ensures
        reply matches Ok(update_string) ==> (r matches Ok(done) && done@ == success_of(
            component@,
            "UpdateSuccess"@,
            "Updated order for item "@,
            order_info@.item_name,
            order_info@.order_id,
            update_string@ != order_info@.update_string,
        )),
        reply matches Err(e) ==> (r matches Err(failure) && failure@ == failure_of(
            component@,
            "Update"@,
            "Failed to update order for item "@ + order_info@.item_name,
            e,
        )),
{
    match reply {
        Ok(update_string) => {
            let unchanged: bool = update_string == order_info.update_string;
            Ok(
                success(
                    component,
                    "UpdateSuccess",
                    "Updated order for item ",
                    order_info.item_name.as_str(),
                    order_info.order_id.as_str(),
                    !unchanged,
                ),
            )
        },
        Err(e) => Err(
            handler_wfm_error(
                component,
                "Update",
                followed_by("Failed to update order for item ", order_info.item_name.as_str()),
                e,
            ),
        ),
    }
}

/// What follows from the market's answer to taking back an order: what is shown is
/// out of date.
pub fn order_deleted(
    component: &str,
    order_info: &OrderDetails,
    reply: Result<(), ApiError>,
) -> (r: Result<Success, Failure>)
    ensures
        reply is Ok ==> (r matches Ok(done) && done@ == success_of(
            component@,
            "DeleteSuccess"@,
            "Deleted order for item "@,
            order_info@.item_name,
            order_info@.order_id,
            true,
        )),
        reply matches Err(e) ==> (r matches Err(failure) && failure@ == failure_of(
            component@,
            "Delete"@,
            "Failed to delete order for item "@ + order_info@.item_name,
            e,
        )),
{
    match reply {
        Ok(_) => Ok(
            success(
                component,
                "DeleteSuccess",
                "Deleted order for item ",
                order_info.item_name.as_str(),
                order_info.order_id.as_str(),
                true,
            ),
        ),
        Err(e) => Err(
            handler_wfm_error(
                component,
                "Delete",
                followed_by("Failed to delete order for item ", order_info.item_name.as_str()),
                e,
            ),
        ),
    }
}

/// Why there are no orders to go on with.
#[derive(Debug, PartialEq, Eq)]
pub enum FetchFailure<E> {
    /// The market did not hand them out: the failure to report.
    Market { report: LogLine },
    /// They could not be written down.
    Write { error: E },
}

/// The failure to report where the market answers with `error` when asked for the
/// orders of the item `item_url`: an error where the request did not get through, and
/// otherwise one that stops the work.
pub open spec fn fetch_failure_of(
    component: Seq<char>,
    item_url: Seq<char>,
    error: ApiError,
) -> LogLineView {
    LogLineView {
        level: if error == ApiError::RequestError {
            LogLevel::Error
        } else {
            LogLevel::Critical
        },
        component: component + ":FetchAndCacheOrders"@,
        message: "Failed to get live orders for item "@ + item_url,
    }
}

/// The `orders` that were written down, or the failure to write them.
pub open spec fn orders_once_written<T, E>(
    orders: T,
    written: Result<(), E>,
) -> Result<T, FetchFailure<E>> {
    match written {
        Ok(_) => Ok(orders),
        Err(error) => Err(FetchFailure::Write { error }),
    }
}

/// Computes [`orders_once_written`].
pub fn keep_written_orders<T, E>(
    orders: T,
    written: Result<(), E>,
) -> (r: Result<T, FetchFailure<E>>)
    ensures
        r == orders_once_written(orders, written),
{
    match written {
        Ok(_) => Ok(orders),
        Err(error) => Err(FetchFailure::Write { error }),
    }
}

/// The orders of the item `item_url` that the market answered with, unchanged, after
/// `write` wrote them to `cache_path`, if there is one. Where the market did not hand
/// them out nothing is written, and where writing fails, that failure takes the place
/// of the orders.
pub fn fetch_and_cache_orders<T, P, E, W: FnOnce(&P, &T) -> Result<(), E>>(
    component: &str,
    item_url: &str,
    cache_path: Option<P>,
    reply: Result<T, ApiError>,
    write: W,
) -> (r: Result<T, FetchFailure<E>>)
    requires
        reply matches Ok(orders) ==> (cache_path matches Some(path) ==> call_requires(
            write,
            (&path, &orders),
        )),
    ensures
        reply matches Err(e) ==> (r matches Err(FetchFailure::Market { report }) && report@
            == fetch_failure_of(component@, item_url@, e)),
        reply matches Ok(orders) ==> match cache_path {
            None => r == Ok::<T, FetchFailure<E>>(orders),
            Some(path) => exists|written: Result<(), E>| #[trigger]
                call_ensures(write, (&path, &orders), written) && r == orders_once_written(
                    orders,
                    written,
                ),
        },
{
    match reply {
        Ok(orders) => match cache_path {
            Some(path) => {
                let written: Result<(), E> = write(&path, &orders);
                keep_written_orders(orders, written)
            },
            None => Ok(orders),
        },
        Err(e) => {
            let level: LogLevel = match e {
                ApiError::RequestError => LogLevel::Error,
                _ => LogLevel::Critical,
            };
            Err(
                FetchFailure::Market {
                    report: LogLine {
                        level,
                        component: followed_by(component, ":FetchAndCacheOrders"),
                        message: followed_by("Failed to get live orders for item ", item_url),
                    },
                },
            )
        },
    }
}

/// Whether `operation` is to be done with the order of `details`.
pub open spec fn asks_for(details: OrderDetails, operation: Seq<char>) -> bool {
    exists|i: int| 0 <= i < details.operation@.len() && (#[trigger] details.operation@[i])@
        == operation
}

proof fn lemma_asks_for(details: OrderDetails, operation: Seq<char>)
    ensures
        asks_for(details, operation) <==> details@.operation.contains(operation),
{
    let said = details@.operation;
    assert(said.len() == details.operation@.len());
    assert(forall|i: int| 0 <= i < said.len() ==> said[i] == (#[trigger] details.operation@[i])@);
    if said.contains(operation) {
        let i = choose|i: int| 0 <= i < said.len() && said[i] == operation;
        assert(details.operation@[i]@ == operation);
    }
    if asks_for(details, operation) {
        let i = choose|i: int|
            0 <= i < details.operation@.len() && (#[trigger] details.operation@[i])@ == operation;
        assert(said[i] == operation);
    }
}

/// An order that the market has and that is to be deleted is always taken back, under its
/// identifier, whether or not the market takes another order and whatever else is asked
/// for. No other order is ever taken back.
pub proof fn orders_to_delete_are_taken_back(
    component: &str,
    order_info: &OrderDetails,
    order_type: OrderType,
    post_price: u32,
    per_trade: Option<u32>,
    can_create_order: bool,
    r: OrderAction,
)
    requires
        call_ensures(
            progress_order,
            (component, order_info, order_type, post_price, per_trade, can_create_order),
            r,
        ),
    ensures
        asks_for(*order_info, "Update"@) && asks_for(*order_info, "Delete"@) ==> (
        r matches OrderAction::Delete { order_id } && order_id@ == order_info.order_id@),
        r is Delete ==> asks_for(*order_info, "Update"@) && asks_for(*order_info, "Delete"@),
{
    lemma_asks_for(*order_info, "Update"@);
    lemma_asks_for(*order_info, "Delete"@);
    lemma_asks_for(*order_info, "Create"@);
    assert(order_info@.order_id == order_info.order_id@);
}

/// An order that is to be created, and not deleted, is created wherever the market takes
/// another one, even where an update is asked for as well. It is visible, and all the rest
/// is as asked for. No other order is ever created.
pub proof fn orders_to_create_are_created(
    component: &str,
    order_info: &OrderDetails,
    order_type: OrderType,
    post_price: u32,
    per_trade: Option<u32>,
    can_create_order: bool,
    r: OrderAction,
)
    requires
        call_ensures(
            progress_order,
            (component, order_info, order_type, post_price, per_trade, can_create_order),
            r,
        ),
    ensures
        can_create_order && asks_for(*order_info, "Create"@) && !asks_for(*order_info, "Delete"@)
            ==> r is Create,
        r matches OrderAction::Create {
            item_id,
            order_type: side,
            platinum,
            quantity,
            visible,
            per_trade: at_once,
            sub_type,
            properties,
        } ==> {
            &&& can_create_order
            &&& asks_for(*order_info, "Create"@) && !asks_for(*order_info, "Delete"@)
            &&& item_id@ == order_info.item_id@
            &&& side == order_type
            &&& platinum == post_price
            &&& quantity == order_info.quantity
            &&& visible
            &&& at_once == per_trade
            &&& view_of(sub_type) == view_of(order_info.sub_type)
            &&& properties@ == order_info@
        },
{
    lemma_asks_for(*order_info, "Update"@);
    lemma_asks_for(*order_info, "Delete"@);
    lemma_asks_for(*order_info, "Create"@);
    assert(order_info@.item_id == order_info.item_id@ && order_info@.quantity
        == order_info.quantity && order_info@.sub_type == view_of(order_info.sub_type));
}

/// An order that is to be updated, and not deleted, is updated unless it is created anew:
/// it is never skipped. No other order is ever updated.
pub proof fn orders_to_update_are_not_skipped(
    component: &str,
    order_info: &OrderDetails,
    order_type: OrderType,
    post_price: u32,
    per_trade: Option<u32>,
    can_create_order: bool,
    r: OrderAction,
)
    requires
        call_ensures(
            progress_order,
            (component, order_info, order_type, post_price, per_trade, can_create_order),
            r,
        ),
    ensures
        asks_for(*order_info, "Update"@) && !asks_for(*order_info, "Delete"@) ==> r is Update
            || r is Create,
        asks_for(*order_info, "Update"@) && !asks_for(*order_info, "Delete"@) && !(can_create_order
            && asks_for(*order_info, "Create"@)) ==> r is Update,
        r matches OrderAction::Update {
            order_id,
            platinum,
            quantity,
            per_trade: at_once,
            properties,
        } ==> {
            &&& asks_for(*order_info, "Update"@) && !asks_for(*order_info, "Delete"@)
            &&& order_id@ == order_info.order_id@
            &&& platinum == post_price
            &&& quantity == order_info.quantity
            &&& at_once == per_trade
            &&& properties@ == order_info@
        },
{
    lemma_asks_for(*order_info, "Update"@);
    lemma_asks_for(*order_info, "Delete"@);
    lemma_asks_for(*order_info, "Create"@);
    assert(order_info@.order_id == order_info.order_id@ && order_info@.quantity
        == order_info.quantity);
}

/// An order is skipped only where the market has it not and it cannot be created or is not
/// to be: a warning says that the limit is reached, or else that the item is not worth it.
pub proof fn skipped_orders_are_explained(
    component: &str,
    order_info: &OrderDetails,
    order_type: OrderType,
    post_price: u32,
    per_trade: Option<u32>,
    can_create_order: bool,
    r: OrderAction,
)
    requires
        call_ensures(
            progress_order,
            (component, order_info, order_type, post_price, per_trade, can_create_order),
            r,
        ),
    ensures
        r is Skip <==> !asks_for(*order_info, "Update"@) && (!can_create_order || asks_for(
            *order_info,
            "Delete"@,
        ) || !asks_for(*order_info, "Create"@)),
        r matches OrderAction::Skip { reason } ==> {
            &&& reason.level == LogLevel::Warning
            &&& reason.component@ == component@ + "Skip"@
            &&& can_create_order ==> reason.message@ == "Item "@ + order_info.item_name@
                + " is not optimal for buying. Skipping."@
            &&& !can_create_order ==> reason.message@ == "Item "@ + order_info.item_name@
                + " has reached the order limit. Skipping."@
        },
{
    lemma_asks_for(*order_info, "Update"@);
    lemma_asks_for(*order_info, "Delete"@);
    lemma_asks_for(*order_info, "Create"@);
    assert(order_info@.item_name == order_info.item_name@);
    if let OrderAction::Skip { reason } = r {
        assert(reason@.level == reason.level && reason@.component == reason.component@
            && reason@.message == reason.message@);
    }
}

/// A failure is a warning where the market is at a limit or has not got what was asked
/// for, and otherwise an error. The orders are fetched again, which a trace tells of, where
/// one of these is about orders, and only there.
pub proof fn failures_are_told_by_their_kind(
    component: &str,
    action: &str,
    message: String,
    e: ApiError,
    r: Failure,
)
    requires
        call_ensures(handler_wfm_error, (component, action, message, e), r),
    ensures
        e is AuctionLimitExceeded ==> r.report.level == LogLevel::Warning && r.refresh is None,
        e is OrderLimitExceeded ==> r.report.level == LogLevel::Warning && r.refresh is Some,
        e is OrderLimitExceededSamePrice ==> r.report.level == LogLevel::Warning && r.refresh
            is Some,
        e is NotFound ==> r.report.level == LogLevel::Warning && r.refresh is Some,
        e is RequestError ==> r.report.level == LogLevel::Error && r.refresh is None,
        e is Other ==> r.report.level == LogLevel::Error && r.refresh is None,
        r.report.component@ == component@ + ":"@ + action@,
        r.report.message@ == message@,
        r.refresh matches Some(line) ==> {
            &&& line.level == LogLevel::Trace
            &&& line.component@ == component@ + ":"@ + action@
            &&& line.message@ == "Refreshed cached orders due to order limit exceeded"@
        },
{
    lemma_failure_says_what_it_holds(r);
}

proof fn lemma_failure_says_what_it_holds(r: Failure)
    ensures
        r@.refresh is Some <==> r.refresh is Some,
        r.refresh matches Some(line) ==> {
            &&& r@.refresh->0.level == line.level
            &&& r@.refresh->0.component == line.component@
            &&& r@.refresh->0.message == line.message@
        },
        r@.report.level == r.report.level,
        r@.report.component == r.report.component@,
        r@.report.message == r.report.message@,
{
}

/// An order that the market created, changed or took back is told of by item and order,
/// and any failure is that of the action. What is shown is brought up to date after every
/// new or deleted order, and after a changed one exactly where the market knows something
/// new of it.
pub proof fn replies_are_told_by_item_and_order(
    component: &str,
    order_info: &OrderDetails,
    reply: Result<String, ApiError>,
    deleted: Result<(), ApiError>,
    created: Result<Success, Failure>,
    updated: Result<Success, Failure>,
    taken_back: Result<Success, Failure>,
)
    requires
        call_ensures(order_created, (component, order_info, reply), created),
        call_ensures(order_updated, (component, order_info, reply), updated),
        call_ensures(order_deleted, (component, order_info, deleted), taken_back),
    ensures
        reply is Ok <==> created is Ok,
        reply is Ok <==> updated is Ok,
        deleted is Ok <==> taken_back is Ok,
        created matches Ok(done) ==> {
            &&& done.refresh_shown_orders
            &&& done.log.level == LogLevel::Info
            &&& done.log.component@ == component@ + "CreateSuccess"@
            &&& done.log.message@ == "Created order for item "@ + order_info.item_name@ + ": "@
                + reply->Ok_0@
        },
        updated matches Ok(done) ==> {
            &&& done.refresh_shown_orders <==> reply->Ok_0@ != order_info.update_string@
            &&& done.log.level == LogLevel::Info
            &&& done.log.component@ == component@ + "UpdateSuccess"@
            &&& done.log.message@ == "Updated order for item "@ + order_info.item_name@ + ": "@
                + order_info.order_id@
        },
        taken_back matches Ok(done) ==> {
            &&& done.refresh_shown_orders
            &&& done.log.level == LogLevel::Info
            &&& done.log.component@ == component@ + "DeleteSuccess"@
            &&& done.log.message@ == "Deleted order for item "@ + order_info.item_name@ + ": "@
                + order_info.order_id@
        },
{
    assert(order_info@.item_name == order_info.item_name@ && order_info@.order_id
        == order_info.order_id@ && order_info@.update_string == order_info.update_string@);
    lemma_success_says_what_it_holds(created);
    lemma_success_says_what_it_holds(updated);
    lemma_success_says_what_it_holds(taken_back);
}

proof fn lemma_success_says_what_it_holds(r: Result<Success, Failure>)
    ensures
        r matches Ok(done) ==> {
            &&& done@.refresh_shown_orders == done.refresh_shown_orders
            &&& done@.log.level == done.log.level
            &&& done@.log.component == done.log.component@
            &&& done@.log.message == done.log.message@
        },
{
}

/// A reply that is a failure leads to what [`handler_wfm_error`] makes of it for the
/// action, with a message that names the item.
pub proof fn failed_replies_are_handled_as_failures(
    component: &str,
    order_info: &OrderDetails,
    e: ApiError,
    action: &str,
    message: String,
    handled: Failure,
    r: Result<Success, Failure>,
)
    requires
        ({
            ||| {
                &&& call_ensures(order_created, (component, order_info, Err(e)), r)
                &&& action@ == "Create"@
                &&& message@ == "Failed to create order for item "@ + order_info.item_name@
            }
            ||| {
                &&& call_ensures(order_updated, (component, order_info, Err(e)), r)
                &&& action@ == "Update"@
                &&& message@ == "Failed to update order for item "@ + order_info.item_name@
            }
            ||| {
                &&& call_ensures(order_deleted, (component, order_info, Err(e)), r)
                &&& action@ == "Delete"@
                &&& message@ == "Failed to delete order for item "@ + order_info.item_name@
            }
        }),
        call_ensures(handler_wfm_error, (component, action, message, e), handled),
    ensures
        r matches Err(failure) && failure@ == handled@,
{
    assert(order_info@.item_name == order_info.item_name@);
}

/// Orders that the market handed out come back unchanged where there is nowhere to write
/// them or writing succeeds. A failure to write comes back as it is, and a failure of the
/// market is an error where the request did not get through and critical otherwise.
pub proof fn fetched_orders_come_back_unchanged<T, P, E, W: FnOnce(&P, &T) -> Result<(), E>>(
    component: &str,
    item_url: &str,
    cache_path: Option<P>,
    reply: Result<T, ApiError>,
    write: W,
    r: Result<T, FetchFailure<E>>,
)
    requires
        call_ensures(
            fetch_and_cache_orders::<T, P, E, W>,
            (component, item_url, cache_path, reply, write),
            r,
        ),
    ensures
        reply matches Ok(orders) ==> (r matches Ok(out) ==> out == orders),
        reply is Ok && cache_path is None ==> r is Ok,
        reply matches Ok(orders) ==> (cache_path matches Some(path) ==> (r is Ok
            ==> exists|done: Result<(), E>| #[trigger]
            call_ensures(write, (&path, &orders), done) && done is Ok)),
        reply matches Ok(orders) ==> (r matches Err(failure) ==> (
        failure matches FetchFailure::Write { error } && cache_path matches Some(path)
            && call_ensures(write, (&path, &orders), Err(error)))),
        reply matches Err(e) ==> (r matches Err(FetchFailure::Market { report }) && report.component@
            == component@ + ":FetchAndCacheOrders"@ && report.message@
            == "Failed to get live orders for item "@ + item_url@ && (e is RequestError
            ==> report.level == LogLevel::Error) && (!(e is RequestError) ==> report.level
            == LogLevel::Critical)),
{
    if let Err(FetchFailure::Market { report }) = r {
        assert(report@.level == report.level && report@.component == report.component@
            && report@.message == report.message@);
    }
}

/// Orders once written come back, and a failure to write them comes back in their place.
pub proof fn written_orders_are_kept<T, E>(
    orders: T,
    written: Result<(), E>,
    r: Result<T, FetchFailure<E>>,
)
    requires
        call_ensures(keep_written_orders::<T, E>, (orders, written), r),
    ensures
        written is Ok ==> r == Ok::<T, FetchFailure<E>>(orders),
        written matches Err(e) ==> (r matches Err(FetchFailure::Write { error }) && error == e),
{
}

/// A view of a message tells all that the message holds.
pub proof fn log_lines_say_what_they_hold(l: LogLine)
    ensures
        l@.level == l.level,
        l@.component == l.component@,
        l@.message == l.message@,
{
}

/// A view of a failure tells all that the failure holds.
pub proof fn failures_say_what_they_hold(f: Failure)
    ensures
        f@.refresh == view_of(f.refresh),
        f@.report == f.report@,
{
}

/// A view of a success tells all that the success holds.
pub proof fn successes_say_what_they_hold(s: Success)
    ensures
        s@.refresh_shown_orders == s.refresh_shown_orders,
        s@.log == s.log@,
{
}

} // verus!
