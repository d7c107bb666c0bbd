<!doctype html>
<html lang="en" data-bs-theme="light">
<head>
<meta charset="utf-8"><meta name="viewport" content="width=device-width, initial-scale=1">
<title>CalStack — Rules</title>
<link rel="stylesheet" href="/assets/css/bootstrap.min.css">
<link rel="stylesheet" href="/assets/css/bootstrap-icons.css">
<link rel="stylesheet" href="/assets/css/app.css">
<link rel="icon" type="image/png" sizes="16x16" href="/assets/img/favicon-16x16.png">
<link rel="icon" type="image/png" sizes="32x32" href="/assets/img/favicon-32x32.png">
<link rel="apple-touch-icon" href="/assets/img/apple-touch-icon.png">
<script src="/assets/js/theme.js"></script>
</head>
<body class="bg-body-tertiary">
<!-- header -->
<!-- admin menu -->
<div class="container p-3">
  <div class="d-flex align-items-center gap-2 mb-1">
    <h1 class="h4 mb-0">Rules</h1>
    <select class="form-select form-select-sm w-auto" id="rule-calendar-select">
      <option value="">All calendars</option>
    </select>
  </div>
  <p id="rules-scope-note" class="text-body-secondary small"></p>
  <form id="rule-form" class="card p-3 mb-4">
    <div class="row g-2 align-items-end">
      <div class="col"><label class="form-label" for="rule-name">Name</label>
        <input class="form-control" id="rule-name" required></div>
      <div class="col-auto"><label class="form-label" for="rule-trigger">Trigger</label>
        <select class="form-select" id="rule-trigger">
          <option value="event_created">event_created</option>
          <option value="event_updated">event_updated</option>
          <option value="event_deleted">event_deleted</option>
          <option value="task_created">task_created</option>
          <option value="task_updated">task_updated</option>
          <option value="task_deleted">task_deleted</option>
          <option value="task_completed">task_completed</option>
          <option value="task_due">task_due</option>
          <option value="journal_created">journal_created</option>
          <option value="journal_updated">journal_updated</option>
          <option value="journal_deleted">journal_deleted</option>
        </select></div>
      <div class="col-auto form-check mb-2">
        <input class="form-check-input" type="checkbox" id="rule-enabled" checked>
        <label class="form-check-label" for="rule-enabled">Enabled</label></div>
      <div id="rule-global-row" class="col-auto form-check mb-2">
        <input class="form-check-input" type="checkbox" id="rule-global">
        <label class="form-check-label" for="rule-global">Apply to all calendars</label></div>
    </div>
    <div class="row g-2 mt-1">
      <div class="col-auto"><label class="form-label" for="rule-action-type">Action</label>
        <select class="form-select" id="rule-action-type">
          <option value="create_notification">In-app notification</option>
          <option value="sms">SMS (requires a Twilio provider)</option>
          <option value="webhook">Webhook (delivers to the tenant's webhooks)</option>
        </select></div>
      <div id="rule-title-row" class="col"><label class="form-label" for="rule-title">Notification title</label>
        <input class="form-control" id="rule-title" required></div>
      <div id="rule-to-row" class="col" hidden><label class="form-label" for="rule-to">To (phone number)</label>
        <input class="form-control" id="rule-to"></div>
      <div class="col"><label class="form-label" for="rule-body">Message</label>
        <input class="form-control" id="rule-body"></div>
      <div class="col-auto d-flex align-items-end">
        <button class="btn btn-primary" type="submit">Add rule</button></div>
    </div>
  </form>
  <table class="table table-sm bg-body">
    <thead><tr><th>Name</th><th>Trigger</th><th>Scope</th><th>Actions</th><th>Enabled</th><th></th></tr></thead>
    <tbody id="rules-rows"></tbody>
  </table>
</div>
<script src="/assets/js/jquery.min.js"></script>
<script src="/assets/js/jquery-migrate.min.js"></script>
<script src="/assets/js/api.js"></script>
<script src="/assets/js/bootstrap.bundle.min.js"></script>
<script src="/assets/js/rules.js"></script>
<!-- footer -->
</body></html>
