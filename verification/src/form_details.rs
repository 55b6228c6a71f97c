//! Recording the value submitted for a form property in the history.
use vstd::prelude::*;
use crate::entities::clone_opt;
use crate::outside::{current_time_millis, new_uuid};

verus! {

/// A historic detail: a recorded variable or form-property value.
#[derive(Debug)]
pub struct HistoricDetail {
    pub id: String,
    pub process_instance_id: String,
    pub execution_id: Option<String>,
    pub activity_instance_id: Option<String>,
    pub task_id: Option<String>,
    /// When it was recorded, in milliseconds since the Unix epoch.
    pub time: i64,
    pub detail_type: String,
    pub revision: Option<i32>,
    pub variable_name: Option<String>,
    pub variable_type: Option<String>,
    pub value: Option<String>,
    pub property_id: Option<String>,
    /// The submitted value, as JSON text.
    pub property_value: Option<String>,
}

impl HistoricDetail {
    /// A copy of the detail.
    pub fn duplicate(&self) -> (r: Self)
        ensures
            r == *self,
    {
        HistoricDetail {
            id: self.id.clone(),
            process_instance_id: self.process_instance_id.clone(),
            execution_id: clone_opt(&self.execution_id),
            activity_instance_id: clone_opt(&self.activity_instance_id),
            task_id: clone_opt(&self.task_id),
            time: self.time,
            detail_type: self.detail_type.clone(),
            revision: self.revision,
            variable_name: clone_opt(&self.variable_name),
            variable_type: clone_opt(&self.variable_type),
            value: clone_opt(&self.value),
            property_id: clone_opt(&self.property_id),
            property_value: clone_opt(&self.property_value),
        }
    }
}

/// Records the value submitted for a form property of an instance (and of
/// a task, when one is given).
#[derive(Debug)]
pub struct RecordFormPropertyDetailCmd {
    pub process_instance_id: String,
    pub task_id: Option<String>,
    pub property_id: String,
    /// The submitted value, as JSON text.
    pub property_value: String,
}

/// `d` records `cmd`'s form property, whatever its id and time.
pub open spec fn records_form_property(d: HistoricDetail, cmd: RecordFormPropertyDetailCmd) -> bool {
    &&& d.process_instance_id == cmd.process_instance_id
    &&& d.execution_id is None
    &&& d.activity_instance_id is None
    &&& d.task_id == cmd.task_id
    &&& d.detail_type@ == "formProperty"@
    &&& d.revision is None
    &&& d.variable_name is None
    &&& d.variable_type is None
    &&& d.value is None
    &&& d.property_id == Some(cmd.property_id)
    &&& d.property_value == Some(cmd.property_value)
}

impl RecordFormPropertyDetailCmd {
    pub fn new(process_instance_id: String, task_id: Option<String>, property_id: String, property_value: String) -> (r: Self)
        ensures
            r == (RecordFormPropertyDetailCmd { process_instance_id, task_id, property_id, property_value }),
    {
        RecordFormPropertyDetailCmd { process_instance_id, task_id, property_id, property_value }
    }

    /// Appends the detail to `details` and returns it: a fresh random id,
    /// the current time, and the command's instance, task and property.
    pub fn run(&self, details: &mut Vec<HistoricDetail>) -> (r: HistoricDetail)
        ensures
            records_form_property(r, *self),
            final(details)@ == old(details)@.push(r),
    {
        let detail = HistoricDetail {
            id: new_uuid(),
            process_instance_id: self.process_instance_id.clone(),
            execution_id: None,
            activity_instance_id: None,
            task_id: clone_opt(&self.task_id),
            time: current_time_millis(),
            detail_type: crate::text::owned("formProperty"),
            revision: None,
            variable_name: None,
            variable_type: None,
            value: None,
            property_id: Some(self.property_id.clone()),
            property_value: Some(self.property_value.clone()),
        };
        details.push(detail.duplicate());
        detail
    }
}

} // verus!
